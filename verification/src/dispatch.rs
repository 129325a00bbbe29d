//! The dispatcher: one request runs `Received -> Matching -> Extracting ->
//! Handling -> Responding -> Done`, falling to `Failed` from matching,
//! extraction or handling; every failure is translated to a response
//! before `Done`. Handlers live in a tagged table resolved at
//! construction, so request-time invocation is one indirect step with no
//! runtime type inspection.

use vstd::prelude::*;
use crate::errors::{DomainError, FailureKind, FailureModel, Translator, translate_model, failure_model};
use crate::extract::{ExtractionError, ExtractorSpec, Value, ValueModel, value_model, extract_spec, first_fail_from, run_extractors};
use crate::pattern::{MatchOutcome, Request, RouteTable, best_match, captures_of, match_route, method_only_mismatch, request_parts};
use crate::response::{BodyKind, ChunkCursor, CountdownCursor, JsonObject, JsonScalar, ResponseSpec, StreamBody, WireResponse, body_fails, build_response, built_flushes, built_headers, countdown_chunks, header_name_content_type, mime_json, object_text, wf_stream};
use crate::text;

verus! {

/// The per-request lifecycle, one phase at a time, failures carrying
/// their cause.
pub enum Phase {
    Received,
    Matching,
    Extracting,
    Handling,
    Responding,
    Done,
    Failed(FailureKind),
}

/// What happened in the current phase.
pub enum DispatchEvent {
    Begin,
    RouteFound,
    RouteMissing { method_mismatch: bool },
    InputsBound,
    InputsRejected(ExtractionError),
    HandlerSucceeded,
    HandlerFailed(DomainError),
    DeadlineExceeded,
    ResponseSent,
    FailureTranslated,
}

/// The transition relation of the dispatch state machine. An event that
/// does not belong to the current phase leaves it unchanged.
pub open spec fn next_phase(p: Phase, e: DispatchEvent) -> Phase {
    match (p, e) {
        (Phase::Received, DispatchEvent::Begin) => Phase::Matching,
        (Phase::Matching, DispatchEvent::RouteFound) => Phase::Extracting,
        (Phase::Matching, DispatchEvent::RouteMissing { method_mismatch }) => Phase::Failed(
            if method_mismatch {
                FailureKind::MethodNotAllowed
            } else {
                FailureKind::NotFound
            },
        ),
        (Phase::Extracting, DispatchEvent::InputsBound) => Phase::Handling,
        (Phase::Extracting, DispatchEvent::InputsRejected(err)) => Phase::Failed(
            FailureKind::BadInput(err),
        ),
        (Phase::Handling, DispatchEvent::HandlerSucceeded) => Phase::Responding,
        (Phase::Handling, DispatchEvent::HandlerFailed(d)) => Phase::Failed(
            FailureKind::Domain(d),
        ),
        (Phase::Handling, DispatchEvent::DeadlineExceeded) => Phase::Failed(
            FailureKind::DeadlineExceeded,
        ),
        (Phase::Responding, DispatchEvent::ResponseSent) => Phase::Done,
        (Phase::Failed(_), DispatchEvent::FailureTranslated) => Phase::Done,
        (q, _) => q,
    }
}

/// Advances the state machine by one event.
pub fn advance(p: Phase, e: DispatchEvent) -> (q: Phase)
    ensures
        q == next_phase(p, e),
{
    match (p, e) {
        (Phase::Received, DispatchEvent::Begin) => Phase::Matching,
        (Phase::Matching, DispatchEvent::RouteFound) => Phase::Extracting,
        (Phase::Matching, DispatchEvent::RouteMissing { method_mismatch }) => Phase::Failed(
            if method_mismatch {
                FailureKind::MethodNotAllowed
            } else {
                FailureKind::NotFound
            },
        ),
        (Phase::Extracting, DispatchEvent::InputsBound) => Phase::Handling,
        (Phase::Extracting, DispatchEvent::InputsRejected(err)) => Phase::Failed(
            FailureKind::BadInput(err),
        ),
        (Phase::Handling, DispatchEvent::HandlerSucceeded) => Phase::Responding,
        (Phase::Handling, DispatchEvent::HandlerFailed(d)) => Phase::Failed(
            FailureKind::Domain(d),
        ),
        (Phase::Handling, DispatchEvent::DeadlineExceeded) => Phase::Failed(
            FailureKind::DeadlineExceeded,
        ),
        (Phase::Responding, DispatchEvent::ResponseSent) => Phase::Done,
        (Phase::Failed(_), DispatchEvent::FailureTranslated) => Phase::Done,
        (q, _) => q,
    }
}

/// One handler in the tagged handler table.
pub enum HandlerKind {
    /// A fixed status and body.
    Fixed { status: u16, body: Vec<u8> },
    /// Returns the request body verbatim.
    Echo,
    /// A fixed prefix followed by the first extracted text value.
    Greet { prefix: Vec<u8> },
    /// A JSON object reporting this request's sequence number.
    JsonCounter { counter: i32 },
    /// A lazily produced countdown of server-sent events.
    Countdown { from: u32 },
    /// A stream of prepared chunks.
    StreamChunks { chunks: Vec<Vec<u8>> },
    /// A handler that signals a domain error.
    Fail { err: DomainError },
}

/// A handler with its declared inputs.
pub struct HandlerEntry {
    pub extractors: Vec<ExtractorSpec>,
    pub kind: HandlerKind,
}

/// The built form of a response: what reaches the wire.
pub struct RespModel {
    pub status: u16,
    pub headers: Seq<(Seq<u8>, Seq<u8>)>,
    pub flushes: Seq<Seq<u8>>,
    pub completed: bool,
}

pub open spec fn counter_name() -> Seq<u8> {
    seq!['c' as u8, 'o' as u8, 'u' as u8, 'n' as u8, 't' as u8, 'e' as u8, 'r' as u8]
}

/// The serialized counter report `{"counter":n}`.
pub open spec fn counter_body(n: int) -> Seq<u8> {
    seq![123u8, 34u8] + counter_name() + seq![34u8, 58u8] + text::signed_dec_digits(n) + seq![
        125u8,
    ]
}

pub open spec fn mime_event_stream() -> Seq<u8> {
    seq![
        't' as u8,
        'e' as u8,
        'x' as u8,
        't' as u8,
        '/' as u8,
        'e' as u8,
        'v' as u8,
        'e' as u8,
        'n' as u8,
        't' as u8,
        '-' as u8,
        's' as u8,
        't' as u8,
        'r' as u8,
        'e' as u8,
        'a' as u8,
        'm' as u8,
    ]
}

/// What a handler's built response looks like, or the domain error it
/// signals, as a pure function of its inputs and the request body.
pub open spec fn invoke_model(h: HandlerKind, vals: Seq<ValueModel>, body: Seq<u8>) -> Result<
    RespModel,
    DomainError,
> {
    match h {
        HandlerKind::Fixed { status, body: b } => Ok(
            RespModel {
                status,
                headers: Seq::empty(),
                flushes: seq![b@],
                completed: true,
            },
        ),
        HandlerKind::Echo => Ok(
            RespModel { status: 200, headers: Seq::empty(), flushes: seq![body], completed: true },
        ),
        HandlerKind::Greet { prefix } => if vals.len() > 0 {
            match vals[0] {
                ValueModel::Text(t) => Ok(
                    RespModel {
                        status: 200,
                        headers: Seq::empty(),
                        flushes: seq![prefix@ + t],
                        completed: true,
                    },
                ),
                _ => Err(DomainError::InternalError),
            }
        } else {
            Err(DomainError::InternalError)
        },
        HandlerKind::JsonCounter { counter } => Ok(
            RespModel {
                status: 200,
                headers: seq![(header_name_content_type(), mime_json())],
                flushes: seq![counter_body(counter + 1)],
                completed: true,
            },
        ),
        HandlerKind::Countdown { from } => Ok(
            RespModel {
                status: 200,
                headers: seq![(header_name_content_type(), mime_event_stream())],
                flushes: countdown_chunks(from as nat),
                completed: true,
            },
        ),
        HandlerKind::StreamChunks { chunks } => Ok(
            RespModel {
                status: 200,
                headers: Seq::empty(),
                flushes: text::views_of(chunks@),
                completed: true,
            },
        ),
        HandlerKind::Fail { err } => Err(err),
    }
}

fn push_counter_name(v: &mut Vec<u8>)
    ensures
        final(v)@ == old(v)@ + counter_name(),
{
    v.push('c' as u8);
    v.push('o' as u8);
    v.push('u' as u8);
    v.push('n' as u8);
    v.push('t' as u8);
    v.push('e' as u8);
    v.push('r' as u8);
    proof {
        assert(v@ =~= old(v)@ + counter_name());
    }
}

fn event_stream_header() -> (r: (Vec<u8>, Vec<u8>))
    ensures
        r.0@ == header_name_content_type(),
        r.1@ == mime_event_stream(),
{
    let mut n: Vec<u8> = Vec::new();
    n.push('c' as u8);
    n.push('o' as u8);
    n.push('n' as u8);
    n.push('t' as u8);
    n.push('e' as u8);
    n.push('n' as u8);
    n.push('t' as u8);
    n.push('-' as u8);
    n.push('t' as u8);
    n.push('y' as u8);
    n.push('p' as u8);
    n.push('e' as u8);
    let mut v: Vec<u8> = Vec::new();
    v.push('t' as u8);
    v.push('e' as u8);
    v.push('x' as u8);
    v.push('t' as u8);
    v.push('/' as u8);
    v.push('e' as u8);
    v.push('v' as u8);
    v.push('e' as u8);
    v.push('n' as u8);
    v.push('t' as u8);
    v.push('-' as u8);
    v.push('s' as u8);
    v.push('t' as u8);
    v.push('r' as u8);
    v.push('e' as u8);
    v.push('a' as u8);
    v.push('m' as u8);
    proof {
        assert(n@ =~= header_name_content_type());
        assert(v@ =~= mime_event_stream());
    }
    (n, v)
}

/// Invokes one handler on its extracted inputs: a single indirect call
/// through the tagged table. The returned specification builds to exactly
/// what `invoke_model` says.
pub fn invoke(h: &HandlerKind, vals: &Vec<Value>, req: &Request) -> (r: Result<
    ResponseSpec,
    DomainError,
>)
    ensures
        match r {
            Ok(resp) => {
                &&& (match resp.body {
                    BodyKind::Stream(s) => wf_stream(s),
                    _ => true,
                })
                &&& invoke_model(*h, vals@.map_values(|v: Value| value_model(v)), req.body@)
                    == Ok::<RespModel, DomainError>(
                    (RespModel {
                        status: resp.status,
                        headers: built_headers(text::pair_views(resp.headers@), resp.body),
                        flushes: built_flushes(resp.body),
                        completed: !body_fails(resp.body),
                    }),
                )
            },
            Err(e) => invoke_model(*h, vals@.map_values(|v: Value| value_model(v)), req.body@)
                == Err::<RespModel, DomainError>(e),
        },
{
    let ghost gvals = vals@.map_values(|v: Value| value_model(v));
    match h {
        HandlerKind::Fixed { status, body } => {
            let b = vstd::slice::slice_to_vec(body.as_slice());
            let resp = ResponseSpec { status: *status, headers: Vec::new(), body: BodyKind::Fixed(b) };
            proof {
                assert(built_flushes(resp.body) =~= seq![body@]);
                assert(text::pair_views(resp.headers@) =~= Seq::<(Seq<u8>, Seq<u8>)>::empty());
            }
            Ok(resp)
        },
        HandlerKind::Echo => {
            let b = vstd::slice::slice_to_vec(req.body.as_slice());
            let resp = ResponseSpec { status: 200, headers: Vec::new(), body: BodyKind::Fixed(b) };
            proof {
                assert(built_flushes(resp.body) =~= seq![req.body@]);
                assert(text::pair_views(resp.headers@) =~= Seq::<(Seq<u8>, Seq<u8>)>::empty());
            }
            Ok(resp)
        },
        HandlerKind::Greet { prefix } => {
            if vals.len() == 0 {
                return Err(DomainError::InternalError);
            }
            match &vals[0] {
                Value::Text(t) => {
                    proof {
                        assert(gvals[0] == value_model(vals@[0]));
                    }
                    let mut b = vstd::slice::slice_to_vec(prefix.as_slice());
                    text::append_bytes(&mut b, t.as_slice());
                    let resp = ResponseSpec {
                        status: 200,
                        headers: Vec::new(),
                        body: BodyKind::Fixed(b),
                    };
                    proof {
                        assert(built_flushes(resp.body) =~= seq![prefix@ + t@]);
                        assert(text::pair_views(resp.headers@) =~= Seq::<
                            (Seq<u8>, Seq<u8>),
                        >::empty());
                    }
                    Ok(resp)
                },
                _ => {
                    proof {
                        assert(gvals[0] == value_model(vals@[0]));
                    }
                    Err(DomainError::InternalError)
                },
            }
        },
        HandlerKind::JsonCounter { counter } => {
            let mut name: Vec<u8> = Vec::new();
            push_counter_name(&mut name);
            let next: i64 = (*counter as i64) + 1;
            let mut fields: Vec<(Vec<u8>, JsonScalar)> = Vec::new();
            fields.push((name, JsonScalar::Int(next)));
            let obj = JsonObject { fields };
            proof {
                crate::response::lemma_escape_plain(counter_name());
                assert(object_text(obj) =~= counter_body(*counter + 1));
            }
            let resp = ResponseSpec {
                status: 200,
                headers: Vec::new(),
                body: BodyKind::Json(obj),
            };
            proof {
                assert(built_flushes(resp.body) =~= seq![counter_body(*counter + 1)]);
                assert(built_headers(text::pair_views(resp.headers@), resp.body) =~= seq![
                    (header_name_content_type(), mime_json()),
                ]);
            }
            Ok(resp)
        },
        HandlerKind::Countdown { from } => {
            let hdr = event_stream_header();
            let mut headers: Vec<(Vec<u8>, Vec<u8>)> = Vec::new();
            headers.push(hdr);
            let resp = ResponseSpec {
                status: 200,
                headers,
                body: BodyKind::Stream(StreamBody::Countdown(CountdownCursor { current: *from })),
            };
            proof {
                assert(text::pair_views(resp.headers@) =~= seq![
                    (header_name_content_type(), mime_event_stream()),
                ]);
                assert(built_flushes(resp.body) =~= countdown_chunks(*from as nat));
            }
            Ok(resp)
        },
        HandlerKind::StreamChunks { chunks } => {
            let mut copied: Vec<Vec<u8>> = Vec::new();
            let mut i: usize = 0;
            while i < chunks.len()
                invariant
                    0 <= i <= chunks@.len(),
                    text::views_of(copied@) == text::views_of(chunks@).take(i as int),
                decreases chunks@.len() - i,
            {
                let c = vstd::slice::slice_to_vec(chunks[i].as_slice());
                proof {
                    assert(c@ == chunks@[i as int]@);
                    assert(text::views_of(chunks@)[i as int] == chunks@[i as int]@);
                }
                let ghost prev = copied@;
                copied.push(c);
                proof {
                    assert(copied@ == prev.push(c));
                    assert(text::views_of(copied@) =~= text::views_of(prev).push(c@));
                    assert(text::views_of(copied@) =~= text::views_of(chunks@).take(i + 1));
                }
                i = i + 1;
            }
            proof {
                assert(text::views_of(chunks@).take(i as int) =~= text::views_of(chunks@));
            }
            let cursor = ChunkCursor { chunks: copied, pos: 0, fail_after: None };
            let resp = ResponseSpec {
                status: 200,
                headers: Vec::new(),
                body: BodyKind::Stream(StreamBody::Chunks(cursor)),
            };
            proof {
                assert(text::pair_views(resp.headers@) =~= Seq::<(Seq<u8>, Seq<u8>)>::empty());
                assert(built_flushes(resp.body) =~= text::views_of(chunks@));
            }
            Ok(resp)
        },
        HandlerKind::Fail { err } => Err(*err),
    }
}

/// The engine: an immutable route table and handler table built at
/// startup, and the error translator, whose log is the only part a
/// request mutates.
pub struct Dispatcher {
    pub table: RouteTable,
    pub handlers: Vec<HandlerEntry>,
    pub translator: Translator,
}

/// Every route refers into the handler table.
pub open spec fn wf_dispatcher(d: Dispatcher) -> bool {
    forall|i: int|
        0 <= i < d.table.routes@.len() ==> (#[trigger] d.table.routes@[i]).handler
            < d.handlers@.len()
}

/// The values extraction yields when no extractor fails.
pub open spec fn ok_values(
    xs: Seq<ExtractorSpec>,
    caps: Seq<(Seq<u8>, Seq<u8>)>,
    q: Seq<u8>,
    b: Seq<u8>,
) -> Seq<ValueModel> {
    Seq::new(
        xs.len(),
        |k: int|
            match extract_spec(xs[k], caps, q, b) {
                Ok(v) => v,
                Err(_) => ValueModel::Uint(0),
            },
    )
}

/// The error parts of a failed extraction.
pub open spec fn err_parts(r: Result<ValueModel, (crate::extract::ErrorKind, Seq<u8>, Seq<u8>)>) -> (
    crate::extract::ErrorKind,
    Seq<u8>,
    Seq<u8>,
) {
    match r {
        Err(e) => e,
        Ok(_) => (crate::extract::ErrorKind::MissingField, Seq::empty(), Seq::empty()),
    }
}

/// What one dispatch cycle decides, as a pure function of the engine's
/// startup state and the request: the handler's built response, or the
/// failure that goes to the translator.
pub open spec fn outcome_model(d: Dispatcher, req: Request, deadline_hit: bool) -> Result<
    RespModel,
    FailureModel,
> {
    let parts = request_parts(d.table, req);
    let headers = text::pair_views(req.headers@);
    match best_match(d.table.routes@, parts, req.method, headers) {
        None => Err(
            if method_only_mismatch(d.table.routes@, parts, req.method, headers) {
                FailureModel::MethodNotAllowed
            } else {
                FailureModel::NotFound
            },
        ),
        Some(j) => {
            let t = d.table.routes@[j];
            let entry = d.handlers@[t.handler as int];
            let caps = captures_of(t.segments@, parts);
            match first_fail_from(entry.extractors@, caps, req.query@, req.body@, 0) {
                Some(k) => {
                    let em = err_parts(extract_spec(entry.extractors@[k], caps, req.query@, req.body@));
                    Err(FailureModel::BadInput(em.0, em.1))
                },
                None => if deadline_hit {
                    Err(FailureModel::DeadlineExceeded)
                } else {
                    match invoke_model(
                        entry.kind,
                        ok_values(entry.extractors@, caps, req.query@, req.body@),
                        req.body@,
                    ) {
                        Ok(m) => Ok(m),
                        Err(de) => Err(FailureModel::Domain(de)),
                    }
                },
            }
        },
    }
}

/// The wire response a dispatch cycle ends in: the handler's built
/// response, or the translated failure.
pub open spec fn wire_model(d: Dispatcher, req: Request, deadline_hit: bool) -> RespModel {
    match outcome_model(d, req, deadline_hit) {
        Ok(m) => m,
        Err(fm) => {
            let sb = translate_model(
                d.translator.mappings@,
                d.translator.extraction_overrides@,
                fm,
            );
            (RespModel { status: sb.0, headers: Seq::empty(), flushes: seq![sb.1], completed: true })
        },
    }
}

impl Dispatcher {
    /// Translates a failure and renders it: the failure path of every
    /// dispatch cycle, always ending in a complete client response.
    fn finish_failure(&mut self, f: FailureKind) -> (r: WireResponse)
        ensures
            final(self).table == old(self).table,
            final(self).handlers == old(self).handlers,
            final(self).translator.mappings@ == old(self).translator.mappings@,
            final(self).translator.extraction_overrides@ == old(
                self,
            ).translator.extraction_overrides@,
            final(self).translator.log@.len() == old(self).translator.log@.len() + 1,
            final(self).translator.log@.drop_last() == old(self).translator.log@,
            r.status == translate_model(
                old(self).translator.mappings@,
                old(self).translator.extraction_overrides@,
                failure_model(f),
            ).0,
            text::pair_views(r.headers@) == Seq::<(Seq<u8>, Seq<u8>)>::empty(),
            text::views_of(r.flushes@) == seq![
                translate_model(
                    old(self).translator.mappings@,
                    old(self).translator.extraction_overrides@,
                    failure_model(f),
                ).1,
            ],
            r.completed,
    {
        let sb = self.translator.translate(&f);
        let (status, body): (u16, Vec<u8>) = sb;
        let ghost gbody = body@;
        let resp = ResponseSpec { status, headers: Vec::new(), body: BodyKind::Fixed(body) };
        let wire = build_response(resp);
        proof {
            assert(text::pair_views(wire.headers@) =~= Seq::<(Seq<u8>, Seq<u8>)>::empty());
            assert(text::views_of(wire.flushes@) =~= seq![gbody]);
        }
        wire
    }

    /// One full dispatch cycle: match, extract, handle, respond, with
    /// every failure translated before the cycle ends. The response is
    /// the one `wire_model` pins for the engine's startup state and the
    /// request; only the translator's log changes, and only on failure.
    pub fn dispatch(&mut self, req: &Request, deadline_hit: bool) -> (r: WireResponse)
        requires
            wf_dispatcher(*old(self)),
        ensures
            final(self).table == old(self).table,
            final(self).handlers == old(self).handlers,
            final(self).translator.mappings@ == old(self).translator.mappings@,
            final(self).translator.extraction_overrides@ == old(
                self,
            ).translator.extraction_overrides@,
            r.status == wire_model(*old(self), *req, deadline_hit).status,
            text::pair_views(r.headers@) == wire_model(*old(self), *req, deadline_hit).headers,
            text::views_of(r.flushes@) == wire_model(*old(self), *req, deadline_hit).flushes,
            r.completed == wire_model(*old(self), *req, deadline_hit).completed,
            outcome_model(*old(self), *req, deadline_hit) is Ok ==> final(self).translator.log@
                == old(self).translator.log@,
            outcome_model(*old(self), *req, deadline_hit) is Err ==> {
                &&& final(self).translator.log@.len() == old(self).translator.log@.len() + 1
                &&& final(self).translator.log@.drop_last() == old(self).translator.log@
            },
    {
        let ghost mut phase = Phase::Received;
        proof {
            phase = next_phase(phase, DispatchEvent::Begin);
            assert(phase is Matching);
        }
        let outcome = match_route(&self.table, req);
        match outcome {
            MatchOutcome::Matched(mr) => {
                proof {
                    phase = next_phase(phase, DispatchEvent::RouteFound);
                    assert(phase is Extracting);
                }
                let hidx = self.table.routes[mr.route].handler;
                assert(hidx < self.handlers@.len());
                let entry = &self.handlers[hidx];
                let extracted = run_extractors(&entry.extractors, &mr.captures, &req.query, &req.body);
                match extracted {
                    Ok(vals) => {
                        proof {
                            phase = next_phase(phase, DispatchEvent::InputsBound);
                            assert(phase is Handling);
                        }
                        if deadline_hit {
                            proof {
                                phase = next_phase(phase, DispatchEvent::DeadlineExceeded);
                                assert(phase matches Phase::Failed(FailureKind::DeadlineExceeded));
                            }
                            let wire = self.finish_failure(FailureKind::DeadlineExceeded);
                            proof {
                                phase = next_phase(phase, DispatchEvent::FailureTranslated);
                                assert(phase is Done);
                            }
                            return wire;
                        }
                        proof {
                            assert(vals@.map_values(|v: Value| value_model(v)) =~= ok_values(
                                entry.extractors@,
                                text::pair_views(mr.captures@),
                                req.query@,
                                req.body@,
                            ));
                        }
                        match invoke(&entry.kind, &vals, req) {
                            Ok(resp) => {
                                proof {
                                    phase = next_phase(phase, DispatchEvent::HandlerSucceeded);
                                    assert(phase is Responding);
                                }
                                let wire = build_response(resp);
                                proof {
                                    phase = next_phase(phase, DispatchEvent::ResponseSent);
                                    assert(phase is Done);
                                }
                                return wire;
                            },
                            Err(de) => {
                                proof {
                                    phase = next_phase(phase, DispatchEvent::HandlerFailed(de));
                                    assert(phase matches Phase::Failed(FailureKind::Domain(_)));
                                }
                                let wire = self.finish_failure(FailureKind::Domain(de));
                                proof {
                                    phase = next_phase(phase, DispatchEvent::FailureTranslated);
                                    assert(phase is Done);
                                }
                                return wire;
                            },
                        }
                    },
                    Err(e) => {
                        proof {
                            phase = next_phase(phase, DispatchEvent::InputsRejected(e));
                            assert(phase matches Phase::Failed(FailureKind::BadInput(_)));
                        }
                        let wire = self.finish_failure(FailureKind::BadInput(e));
                        proof {
                            phase = next_phase(phase, DispatchEvent::FailureTranslated);
                            assert(phase is Done);
                        }
                        return wire;
                    },
                }
            },
            MatchOutcome::NoMatch { method_mismatch } => {
                proof {
                    phase = next_phase(
                        phase,
                        DispatchEvent::RouteMissing { method_mismatch },
                    );
                    assert(phase is Failed);
                }
                let f = if method_mismatch {
                    FailureKind::MethodNotAllowed
                } else {
                    FailureKind::NotFound
                };
                let wire = self.finish_failure(f);
                proof {
                    phase = next_phase(phase, DispatchEvent::FailureTranslated);
                    assert(phase is Done);
                }
                return wire;
            },
        }
    }
}

} // verus!
