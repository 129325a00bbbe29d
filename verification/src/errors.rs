//! The error translator: maps routing, extraction and domain failures to
//! status codes and bodies, through a configurable per-error mapping table
//! with a generic server-error fallback, and logs every translated
//! failure.

use vstd::prelude::*;
use crate::extract::{ErrorKind, ExtractionError};
use crate::text;

verus! {

/// An application-defined failure a handler may signal.
#[derive(Clone, Copy, PartialEq, Eq, Structural, Debug)]
pub enum DomainError {
    InternalError,
    BadClientData,
    Timeout,
}

/// Why a dispatch cycle failed.
pub enum FailureKind {
    /// No template matched the request at all.
    NotFound,
    /// Templates agreed on path and guards but not on the method.
    MethodNotAllowed,
    /// An extractor rejected the request's data.
    BadInput(ExtractionError),
    /// The handler signalled a domain error.
    Domain(DomainError),
    /// The per-request deadline was exceeded while handling.
    DeadlineExceeded,
}

/// One configured translation: this domain error becomes this status and
/// body.
pub struct ErrorMapping {
    pub err: DomainError,
    pub status: u16,
    pub body: Vec<u8>,
}

/// The translator: the domain mapping table and the per-extraction-kind
/// status overrides, both fixed at startup, and the log of translated
/// failures.
pub struct Translator {
    pub mappings: Vec<ErrorMapping>,
    pub extraction_overrides: Vec<(ErrorKind, u16)>,
    pub log: Vec<Vec<u8>>,
}

pub open spec fn body_not_found() -> Seq<u8> {
    seq![
        'n' as u8,
        'o' as u8,
        't' as u8,
        ' ' as u8,
        'f' as u8,
        'o' as u8,
        'u' as u8,
        'n' as u8,
        'd' as u8,
    ]
}

pub open spec fn body_method_not_allowed() -> Seq<u8> {
    seq![
        'm' as u8,
        'e' as u8,
        't' as u8,
        'h' as u8,
        'o' as u8,
        'd' as u8,
        ' ' as u8,
        'n' as u8,
        'o' as u8,
        't' as u8,
        ' ' as u8,
        'a' as u8,
        'l' as u8,
        'l' as u8,
        'o' as u8,
        'w' as u8,
        'e' as u8,
        'd' as u8,
    ]
}

pub open spec fn body_internal_error() -> Seq<u8> {
    seq![
        'i' as u8,
        'n' as u8,
        't' as u8,
        'e' as u8,
        'r' as u8,
        'n' as u8,
        'a' as u8,
        'l' as u8,
        ' ' as u8,
        'e' as u8,
        'r' as u8,
        'r' as u8,
        'o' as u8,
        'r' as u8,
    ]
}

pub open spec fn body_timeout() -> Seq<u8> {
    seq!['t' as u8, 'i' as u8, 'm' as u8, 'e' as u8, 'o' as u8, 'u' as u8, 't' as u8]
}

/// The first configured mapping for a domain error, if any.
pub open spec fn domain_lookup(ms: Seq<ErrorMapping>, e: DomainError) -> Option<(u16, Seq<u8>)>
    decreases ms.len(),
{
    if ms.len() == 0 {
        None
    } else if ms[0].err == e {
        Some((ms[0].status, ms[0].body@))
    } else {
        domain_lookup(ms.drop_first(), e)
    }
}

/// The status an extraction failure earns by default: an oversized body
/// is payload too large, everything else is a plain bad request.
pub open spec fn extraction_status(k: ErrorKind) -> u16 {
    if k == ErrorKind::BodyTooLarge {
        413u16
    } else {
        400u16
    }
}

/// The first configured status override for an extraction error kind.
pub open spec fn override_lookup(os: Seq<(ErrorKind, u16)>, k: ErrorKind) -> Option<u16>
    decreases os.len(),
{
    if os.len() == 0 {
        None
    } else if os[0].0 == k {
        Some(os[0].1)
    } else {
        override_lookup(os.drop_first(), k)
    }
}

/// The status an extraction failure earns under a configuration: the
/// override when one is registered, the default otherwise.
pub open spec fn extraction_status_with(os: Seq<(ErrorKind, u16)>, k: ErrorKind) -> u16 {
    match override_lookup(os, k) {
        Some(s) => s,
        None => extraction_status(k),
    }
}

/// The ghost image of a failure: what translation depends on.
pub open spec fn failure_model(f: FailureKind) -> FailureModel {
    match f {
        FailureKind::NotFound => FailureModel::NotFound,
        FailureKind::MethodNotAllowed => FailureModel::MethodNotAllowed,
        FailureKind::BadInput(e) => FailureModel::BadInput(e.kind, e.field@),
        FailureKind::Domain(d) => FailureModel::Domain(d),
        FailureKind::DeadlineExceeded => FailureModel::DeadlineExceeded,
    }
}

pub enum FailureModel {
    NotFound,
    MethodNotAllowed,
    BadInput(ErrorKind, Seq<u8>),
    Domain(DomainError),
    DeadlineExceeded,
}

/// The status and body every failure translates to. Routing failures are
/// always client errors; extraction failures take the configured status
/// for their kind; an unmapped domain error falls back to a generic
/// server error.
pub open spec fn translate_model(
    ms: Seq<ErrorMapping>,
    os: Seq<(ErrorKind, u16)>,
    f: FailureModel,
) -> (u16, Seq<u8>) {
    match f {
        FailureModel::NotFound => (404u16, body_not_found()),
        FailureModel::MethodNotAllowed => (405u16, body_method_not_allowed()),
        FailureModel::BadInput(kind, field) => (extraction_status_with(os, kind), field),
        FailureModel::Domain(d) => match domain_lookup(ms, d) {
            Some(sb) => sb,
            None => (500u16, body_internal_error()),
        },
        FailureModel::DeadlineExceeded => (504u16, body_timeout()),
    }
}

/// A log entry: the translated status, a space, and the body.
pub open spec fn log_line(status: u16, body: Seq<u8>) -> Seq<u8> {
    text::dec_digits(status as nat) + seq![32u8] + body
}

fn push_body_not_found(v: &mut Vec<u8>)
    ensures
        final(v)@ == old(v)@ + body_not_found(),
{
    v.push('n' as u8);
    v.push('o' as u8);
    v.push('t' as u8);
    v.push(' ' as u8);
    v.push('f' as u8);
    v.push('o' as u8);
    v.push('u' as u8);
    v.push('n' as u8);
    v.push('d' as u8);
    proof {
        assert(v@ =~= old(v)@ + body_not_found());
    }
}

fn push_body_method_not_allowed(v: &mut Vec<u8>)
    ensures
        final(v)@ == old(v)@ + body_method_not_allowed(),
{
    v.push('m' as u8);
    v.push('e' as u8);
    v.push('t' as u8);
    v.push('h' as u8);
    v.push('o' as u8);
    v.push('d' as u8);
    v.push(' ' as u8);
    v.push('n' as u8);
    v.push('o' as u8);
    v.push('t' as u8);
    v.push(' ' as u8);
    v.push('a' as u8);
    v.push('l' as u8);
    v.push('l' as u8);
    v.push('o' as u8);
    v.push('w' as u8);
    v.push('e' as u8);
    v.push('d' as u8);
    proof {
        assert(v@ =~= old(v)@ + body_method_not_allowed());
    }
}

fn push_body_internal_error(v: &mut Vec<u8>)
    ensures
        final(v)@ == old(v)@ + body_internal_error(),
{
    v.push('i' as u8);
    v.push('n' as u8);
    v.push('t' as u8);
    v.push('e' as u8);
    v.push('r' as u8);
    v.push('n' as u8);
    v.push('a' as u8);
    v.push('l' as u8);
    v.push(' ' as u8);
    v.push('e' as u8);
    v.push('r' as u8);
    v.push('r' as u8);
    v.push('o' as u8);
    v.push('r' as u8);
    proof {
        assert(v@ =~= old(v)@ + body_internal_error());
    }
}

fn push_body_timeout(v: &mut Vec<u8>)
    ensures
        final(v)@ == old(v)@ + body_timeout(),
{
    v.push('t' as u8);
    v.push('i' as u8);
    v.push('m' as u8);
    v.push('e' as u8);
    v.push('o' as u8);
    v.push('u' as u8);
    v.push('t' as u8);
    proof {
        assert(v@ =~= old(v)@ + body_timeout());
    }
}

impl Translator {
    /// A translator with no configured mappings or overrides.
    pub fn new() -> (r: Translator)
        ensures
            r.mappings@.len() == 0,
            r.extraction_overrides@.len() == 0,
            r.log@.len() == 0,
    {
        Translator { mappings: Vec::new(), extraction_overrides: Vec::new(), log: Vec::new() }
    }

    /// Registers one domain-error mapping; startup-time only.
    pub fn add_mapping(&mut self, err: DomainError, status: u16, body: Vec<u8>)
        ensures
            final(self).mappings@ == old(self).mappings@.push(
                ErrorMapping { err, status, body },
            ),
            final(self).extraction_overrides@ == old(self).extraction_overrides@,
            final(self).log@ == old(self).log@,
    {
        self.mappings.push(ErrorMapping { err, status, body });
    }

    /// Overrides the response status of one extraction error kind;
    /// startup-time only.
    pub fn add_extraction_override(&mut self, kind: ErrorKind, status: u16)
        ensures
            final(self).extraction_overrides@ == old(self).extraction_overrides@.push(
                (kind, status),
            ),
            final(self).mappings@ == old(self).mappings@,
            final(self).log@ == old(self).log@,
    {
        self.extraction_overrides.push((kind, status));
    }

    /// Translates a failure to its status and body, and appends one log
    /// entry recording both.
    pub fn translate(&mut self, f: &FailureKind) -> (r: (u16, Vec<u8>))
        ensures
            (r.0, r.1@) == translate_model(
                old(self).mappings@,
                old(self).extraction_overrides@,
                failure_model(*f),
            ),
            final(self).mappings@ == old(self).mappings@,
            final(self).extraction_overrides@ == old(self).extraction_overrides@,
            final(self).log@.len() == old(self).log@.len() + 1,
            final(self).log@.drop_last() == old(self).log@,
            final(self).log@.last()@ == log_line(r.0, r.1@),
    {
        let (status, body): (u16, Vec<u8>) = match f {
            FailureKind::NotFound => {
                let mut b: Vec<u8> = Vec::new();
                push_body_not_found(&mut b);
                (404u16, b)
            },
            FailureKind::MethodNotAllowed => {
                let mut b: Vec<u8> = Vec::new();
                push_body_method_not_allowed(&mut b);
                (405u16, b)
            },
            FailureKind::BadInput(e) => {
                let status: u16 = match self.lookup_override(e.kind) {
                    Some(s) => s,
                    None => if e.kind == ErrorKind::BodyTooLarge {
                        413
                    } else {
                        400
                    },
                };
                (status, e.field.clone())
            },
            FailureKind::Domain(d) => {
                let looked = self.lookup_domain(*d);
                match looked {
                    Some(sb) => sb,
                    None => {
                        let mut b: Vec<u8> = Vec::new();
                        push_body_internal_error(&mut b);
                        (500u16, b)
                    },
                }
            },
            FailureKind::DeadlineExceeded => {
                let mut b: Vec<u8> = Vec::new();
                push_body_timeout(&mut b);
                (504u16, b)
            },
        };
        let mut entry = text::u64_to_dec(status as u64);
        entry.push(32);
        text::append_bytes(&mut entry, body.as_slice());
        proof {
            assert(entry@ =~= log_line(status, body@));
        }
        self.log.push(entry);
        (status, body)
    }

    /// Looks up the first configured status override for an extraction
    /// error kind.
    fn lookup_override(&self, k: ErrorKind) -> (r: Option<u16>)
        ensures
            r == override_lookup(self.extraction_overrides@, k),
    {
        let mut i: usize = 0;
        proof {
            assert(self.extraction_overrides@.skip(0) =~= self.extraction_overrides@);
        }
        while i < self.extraction_overrides.len()
            invariant
                0 <= i <= self.extraction_overrides@.len(),
                override_lookup(self.extraction_overrides@, k) == override_lookup(
                    self.extraction_overrides@.skip(i as int),
                    k,
                ),
            decreases self.extraction_overrides@.len() - i,
        {
            proof {
                assert(self.extraction_overrides@.skip(i as int)[0]
                    == self.extraction_overrides@[i as int]);
                assert(self.extraction_overrides@.skip(i as int).drop_first()
                    =~= self.extraction_overrides@.skip(i + 1));
            }
            if self.extraction_overrides[i].0 == k {
                return Some(self.extraction_overrides[i].1);
            }
            i = i + 1;
        }
        None
    }

    /// Looks up the first configured mapping for a domain error.
    fn lookup_domain(&self, e: DomainError) -> (r: Option<(u16, Vec<u8>)>)
        ensures
            match r {
                Some(sb) => domain_lookup(self.mappings@, e) == Some((sb.0, sb.1@)),
                None => domain_lookup(self.mappings@, e) is None,
            },
    {
        let mut i: usize = 0;
        proof {
            assert(self.mappings@.skip(0) =~= self.mappings@);
        }
        while i < self.mappings.len()
            invariant
                0 <= i <= self.mappings@.len(),
                domain_lookup(self.mappings@, e) == domain_lookup(
                    self.mappings@.skip(i as int),
                    e,
                ),
            decreases self.mappings@.len() - i,
        {
            proof {
                assert(self.mappings@.skip(i as int)[0] == self.mappings@[i as int]);
                assert(self.mappings@.skip(i as int).drop_first() =~= self.mappings@.skip(i + 1));
            }
            if self.mappings[i].err == e {
                return Some((self.mappings[i].status, self.mappings[i].body.clone()));
            }
            i = i + 1;
        }
        None
    }
}

} // verus!
