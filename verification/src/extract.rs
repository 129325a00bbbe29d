//! The extractor layer: binds captured path parameters, query-string
//! pairs and request bodies into typed values. Extractors run in
//! declaration order and the first failure wins; the handler is never
//! invoked on partial data.

use vstd::prelude::*;
use crate::text;

verus! {

/// Why an extraction failed.
#[derive(Clone, Copy, PartialEq, Eq, Structural, Debug)]
pub enum ErrorKind {
    MissingField,
    TypeMismatch,
    BodyTooLarge,
    MalformedBody,
}

/// A structured extraction failure: the kind, the field it concerns, and
/// the raw bytes that were rejected.
#[derive(Debug)]
pub struct ExtractionError {
    pub kind: ErrorKind,
    pub field: Vec<u8>,
    pub raw: Vec<u8>,
}

/// The ghost image of an extraction error: kind, field, raw value.
pub open spec fn err_model(e: ExtractionError) -> (ErrorKind, Seq<u8>, Seq<u8>) {
    (e.kind, e.field@, e.raw@)
}

/// A typed value handed to a handler.
#[derive(Debug)]
pub enum Value {
    Text(Vec<u8>),
    Uint(u32),
    Bytes(Vec<u8>),
}

/// The ghost image of a typed value.
pub enum ValueModel {
    Text(Seq<u8>),
    Uint(u32),
    Bytes(Seq<u8>),
}

pub open spec fn value_model(v: Value) -> ValueModel {
    match v {
        Value::Text(t) => ValueModel::Text(t@),
        Value::Uint(n) => ValueModel::Uint(n),
        Value::Bytes(b) => ValueModel::Bytes(b@),
    }
}

/// One declared handler input: where it comes from and its limits.
pub enum ExtractorSpec {
    /// A captured path parameter, taken verbatim.
    PathText { name: Vec<u8> },
    /// A captured path parameter parsed as a decimal `u32`.
    PathU32 { name: Vec<u8> },
    /// A key of the query string, taken verbatim.
    QueryText { key: Vec<u8> },
    /// A key of a form-encoded body, subject to a body size limit.
    FormText { key: Vec<u8>, limit: usize },
    /// The whole buffered body, subject to a size limit.
    RawBody { limit: usize },
}

/// The position of the first `=` in a piece, searching from `i`; negative
/// when there is none.
pub open spec fn first_eq_from(p: Seq<u8>, i: int) -> int
    decreases p.len() - i,
{
    if i < 0 || i >= p.len() {
        -1
    } else if p[i] == 61 {
        i
    } else {
        first_eq_from(p, i + 1)
    }
}

/// The key/value reading of one `k=v` piece: split at the first `=`, the
/// whole piece with an empty value when there is none.
pub open spec fn kv_of(p: Seq<u8>) -> (Seq<u8>, Seq<u8>) {
    let e = first_eq_from(p, 0);
    if e < 0 {
        (p, Seq::<u8>::empty())
    } else {
        (p.take(e), p.skip(e + 1))
    }
}

/// The key/value pairs of a query or form string: pieces split at `&`,
/// each read as `k=v`.
pub open spec fn pairs_of(s: Seq<u8>) -> Seq<(Seq<u8>, Seq<u8>)> {
    text::spec_split(s, 38).map_values(|p: Seq<u8>| kv_of(p))
}

/// A form body is well formed when every `&`-piece carries an `=`.
pub open spec fn pieces_well_formed(s: Seq<u8>) -> bool {
    forall|i: int|
        0 <= i < text::spec_split(s, 38).len() ==> first_eq_from(
            #[trigger] text::spec_split(s, 38)[i],
            0,
        ) >= 0
}

/// What one extractor yields from a request, as a pure function of the
/// captures, the query string and the body.
pub open spec fn extract_spec(
    x: ExtractorSpec,
    caps: Seq<(Seq<u8>, Seq<u8>)>,
    query: Seq<u8>,
    body: Seq<u8>,
) -> Result<ValueModel, (ErrorKind, Seq<u8>, Seq<u8>)> {
    match x {
        ExtractorSpec::PathText { name } => match text::lookup_first(caps, name@) {
            Some(v) => Ok(ValueModel::Text(v)),
            None => Err((ErrorKind::MissingField, name@, Seq::<u8>::empty())),
        },
        ExtractorSpec::PathU32 { name } => match text::lookup_first(caps, name@) {
            Some(v) => if v.len() > 0 && text::all_digits(v) && text::digits_value(v) <= u32::MAX {
                Ok(ValueModel::Uint(text::digits_value(v) as u32))
            } else {
                Err((ErrorKind::TypeMismatch, name@, v))
            },
            None => Err((ErrorKind::MissingField, name@, Seq::<u8>::empty())),
        },
        ExtractorSpec::QueryText { key } => match text::lookup_first(pairs_of(query), key@) {
            Some(v) => Ok(ValueModel::Text(v)),
            None => Err((ErrorKind::MissingField, key@, Seq::<u8>::empty())),
        },
        ExtractorSpec::FormText { key, limit } => if body.len() > limit {
            Err((ErrorKind::BodyTooLarge, key@, Seq::<u8>::empty()))
        } else if !pieces_well_formed(body) {
            Err((ErrorKind::MalformedBody, key@, body))
        } else {
            match text::lookup_first(pairs_of(body), key@) {
                Some(v) => Ok(ValueModel::Text(v)),
                None => Err((ErrorKind::MissingField, key@, Seq::<u8>::empty())),
            }
        },
        ExtractorSpec::RawBody { limit } => if body.len() > limit {
            Err((ErrorKind::BodyTooLarge, Seq::<u8>::empty(), Seq::<u8>::empty()))
        } else {
            Ok(ValueModel::Bytes(body))
        },
    }
}

/// The index of the first extractor that fails, searching from `i`.
pub open spec fn first_fail_from(
    xs: Seq<ExtractorSpec>,
    caps: Seq<(Seq<u8>, Seq<u8>)>,
    query: Seq<u8>,
    body: Seq<u8>,
    i: int,
) -> Option<int>
    decreases xs.len() - i,
{
    if i < 0 || i >= xs.len() {
        None
    } else if extract_spec(xs[i], caps, query, body) is Err {
        Some(i)
    } else {
        first_fail_from(xs, caps, query, body, i + 1)
    }
}

pub proof fn lemma_first_fail_some(
    xs: Seq<ExtractorSpec>,
    caps: Seq<(Seq<u8>, Seq<u8>)>,
    query: Seq<u8>,
    body: Seq<u8>,
    i: int,
    k: int,
)
    requires
        0 <= i <= k < xs.len(),
        forall|j: int| i <= j < k ==> #[trigger] extract_spec(xs[j], caps, query, body) is Ok,
        extract_spec(xs[k], caps, query, body) is Err,
    ensures
        first_fail_from(xs, caps, query, body, i) == Some(k),
    decreases k - i,
{
    if i < k {
        lemma_first_fail_some(xs, caps, query, body, i + 1, k);
    }
}

pub proof fn lemma_first_fail_none(
    xs: Seq<ExtractorSpec>,
    caps: Seq<(Seq<u8>, Seq<u8>)>,
    query: Seq<u8>,
    body: Seq<u8>,
    i: int,
)
    requires
        0 <= i <= xs.len(),
        forall|j: int| i <= j < xs.len() ==> #[trigger] extract_spec(xs[j], caps, query, body) is Ok,
    ensures
        first_fail_from(xs, caps, query, body, i) is None,
    decreases xs.len() - i,
{
    if i < xs.len() {
        lemma_first_fail_none(xs, caps, query, body, i + 1);
    }
}

/// Everything `run_extractors` promises: on success one value per
/// extractor, each the one `extract_spec` yields; on failure the error of
/// the first extractor that fails, never a later one's.
pub open spec fn extraction_contract(
    xs: Seq<ExtractorSpec>,
    caps: Seq<(Seq<u8>, Seq<u8>)>,
    query: Seq<u8>,
    body: Seq<u8>,
    r: Result<Vec<Value>, ExtractionError>,
) -> bool {
    match r {
        Ok(vals) => {
            &&& first_fail_from(xs, caps, query, body, 0) is None
            &&& vals@.len() == xs.len()
            &&& forall|j: int|
                0 <= j < xs.len() ==> #[trigger] extract_spec(xs[j], caps, query, body) == Ok::<
                    ValueModel,
                    (ErrorKind, Seq<u8>, Seq<u8>),
                >(value_model(vals@[j]))
        },
        Err(e) => match first_fail_from(xs, caps, query, body, 0) {
            Some(k) => extract_spec(xs[k], caps, query, body) == Err::<
                ValueModel,
                (ErrorKind, Seq<u8>, Seq<u8>),
            >(err_model(e)),
            None => false,
        },
    }
}

/// Extraction order determinism: when the extractor at `k` is the first
/// to fail, every outcome the contract admits is exactly that extractor's
/// error, never a later one's.
pub proof fn lemma_first_failure_wins(
    xs: Seq<ExtractorSpec>,
    caps: Seq<(Seq<u8>, Seq<u8>)>,
    query: Seq<u8>,
    body: Seq<u8>,
    k: int,
    r: Result<Vec<Value>, ExtractionError>,
)
    requires
        0 <= k < xs.len(),
        forall|j: int| 0 <= j < k ==> #[trigger] extract_spec(xs[j], caps, query, body) is Ok,
        extract_spec(xs[k], caps, query, body) is Err,
        extraction_contract(xs, caps, query, body, r),
    ensures
        r is Err,
        extract_spec(xs[k], caps, query, body) == Err::<ValueModel, (ErrorKind, Seq<u8>, Seq<u8>)>(
            err_model(r->Err_0),
        ),
{
    lemma_first_fail_some(xs, caps, query, body, 0, k);
}

/// A pair of typed path inputs: a numeric id and a user name.
#[derive(Debug)]
pub struct Extractors {
    pub id: u32,
    pub username: Vec<u8>,
}

/// Typed path inputs of a post lookup: a numeric post id and a friend
/// name.
#[derive(Debug)]
pub struct PostInfo {
    pub post_id: u32,
    pub friend: Vec<u8>,
}

pub open spec fn name_id() -> Seq<u8> {
    seq!['i' as u8, 'd' as u8]
}

pub open spec fn name_username() -> Seq<u8> {
    seq!['u' as u8, 's' as u8, 'e' as u8, 'r' as u8, 'n' as u8, 'a' as u8, 'm' as u8, 'e' as u8]
}

pub open spec fn name_post_id() -> Seq<u8> {
    seq!['p' as u8, 'o' as u8, 's' as u8, 't' as u8, '_' as u8, 'i' as u8, 'd' as u8]
}

pub open spec fn name_friend() -> Seq<u8> {
    seq!['f' as u8, 'r' as u8, 'i' as u8, 'e' as u8, 'n' as u8, 'd' as u8]
}

/// Binding a numeric capture and a text capture, the numeric one first;
/// the first failure wins.
pub open spec fn two_field_model(
    caps: Seq<(Seq<u8>, Seq<u8>)>,
    num_name: Seq<u8>,
    text_name: Seq<u8>,
) -> Result<(u32, Seq<u8>), (ErrorKind, Seq<u8>, Seq<u8>)> {
    match text::lookup_first(caps, num_name) {
        None => Err((ErrorKind::MissingField, num_name, Seq::<u8>::empty())),
        Some(v) => if v.len() > 0 && text::all_digits(v) && text::digits_value(v) <= u32::MAX {
            match text::lookup_first(caps, text_name) {
                None => Err((ErrorKind::MissingField, text_name, Seq::<u8>::empty())),
                Some(u) => Ok((text::digits_value(v) as u32, u)),
            }
        } else {
            Err((ErrorKind::TypeMismatch, num_name, v))
        },
    }
}

/// Binds one numeric and one text capture by name; the numeric field is
/// tried first and the first failure wins.
fn bind_two_fields(
    caps: &Vec<(Vec<u8>, Vec<u8>)>,
    num_name: Vec<u8>,
    text_name: Vec<u8>,
) -> (r: Result<(u32, Vec<u8>), ExtractionError>)
    ensures
        match r {
            Ok(p) => two_field_model(text::pair_views(caps@), num_name@, text_name@) == Ok::<
                (u32, Seq<u8>),
                (ErrorKind, Seq<u8>, Seq<u8>),
            >((p.0, p.1@)),
            Err(e) => two_field_model(text::pair_views(caps@), num_name@, text_name@) == Err::<
                (u32, Seq<u8>),
                (ErrorKind, Seq<u8>, Seq<u8>),
            >(err_model(e)),
        },
{
    match text::lookup_pair(caps, num_name.as_slice()) {
        None => Err(
            ExtractionError { kind: ErrorKind::MissingField, field: num_name, raw: Vec::new() },
        ),
        Some(v) => match text::parse_u32(v.as_slice()) {
            None => Err(ExtractionError { kind: ErrorKind::TypeMismatch, field: num_name, raw: v }),
            Some(n) => match text::lookup_pair(caps, text_name.as_slice()) {
                None => Err(
                    ExtractionError {
                        kind: ErrorKind::MissingField,
                        field: text_name,
                        raw: Vec::new(),
                    },
                ),
                Some(u) => Ok((n, u)),
            },
        },
    }
}

impl Extractors {
    /// Binds `id` and `username` from the captures of a matched route.
    pub fn from_captures(caps: &Vec<(Vec<u8>, Vec<u8>)>) -> (r: Result<Extractors, ExtractionError>)
        ensures
            match r {
                Ok(ex) => two_field_model(text::pair_views(caps@), name_id(), name_username())
                    == Ok::<(u32, Seq<u8>), (ErrorKind, Seq<u8>, Seq<u8>)>((ex.id, ex.username@)),
                Err(e) => two_field_model(text::pair_views(caps@), name_id(), name_username())
                    == Err::<(u32, Seq<u8>), (ErrorKind, Seq<u8>, Seq<u8>)>(err_model(e)),
            },
    {
        let mut id_name: Vec<u8> = Vec::new();
        id_name.push('i' as u8);
        id_name.push('d' as u8);
        let mut user_name: Vec<u8> = Vec::new();
        user_name.push('u' as u8);
        user_name.push('s' as u8);
        user_name.push('e' as u8);
        user_name.push('r' as u8);
        user_name.push('n' as u8);
        user_name.push('a' as u8);
        user_name.push('m' as u8);
        user_name.push('e' as u8);
        proof {
            assert(id_name@ =~= name_id());
            assert(user_name@ =~= name_username());
        }
        match bind_two_fields(caps, id_name, user_name) {
            Ok(p) => Ok(Extractors { id: p.0, username: p.1 }),
            Err(e) => Err(e),
        }
    }
}

impl PostInfo {
    /// Binds `post_id` and `friend` from the captures of a matched route.
    pub fn from_captures(caps: &Vec<(Vec<u8>, Vec<u8>)>) -> (r: Result<PostInfo, ExtractionError>)
        ensures
            match r {
                Ok(p) => two_field_model(text::pair_views(caps@), name_post_id(), name_friend())
                    == Ok::<(u32, Seq<u8>), (ErrorKind, Seq<u8>, Seq<u8>)>((p.post_id, p.friend@)),
                Err(e) => two_field_model(text::pair_views(caps@), name_post_id(), name_friend())
                    == Err::<(u32, Seq<u8>), (ErrorKind, Seq<u8>, Seq<u8>)>(err_model(e)),
            },
    {
        let mut post_name: Vec<u8> = Vec::new();
        post_name.push('p' as u8);
        post_name.push('o' as u8);
        post_name.push('s' as u8);
        post_name.push('t' as u8);
        post_name.push('_' as u8);
        post_name.push('i' as u8);
        post_name.push('d' as u8);
        let mut friend_name: Vec<u8> = Vec::new();
        friend_name.push('f' as u8);
        friend_name.push('r' as u8);
        friend_name.push('i' as u8);
        friend_name.push('e' as u8);
        friend_name.push('n' as u8);
        friend_name.push('d' as u8);
        proof {
            assert(post_name@ =~= name_post_id());
            assert(friend_name@ =~= name_friend());
        }
        match bind_two_fields(caps, post_name, friend_name) {
            Ok(p) => Ok(PostInfo { post_id: p.0, friend: p.1 }),
            Err(e) => Err(e),
        }
    }
}

/// Finds the first `=` in a piece.
fn find_eq(p: &[u8]) -> (r: Option<usize>)
    ensures
        match r {
            Some(i) => first_eq_from(p@, 0) == i && i < p@.len(),
            None => first_eq_from(p@, 0) < 0,
        },
{
    let mut i: usize = 0;
    while i < p.len()
        invariant
            0 <= i <= p@.len(),
            first_eq_from(p@, 0) == first_eq_from(p@, i as int),
        decreases p@.len() - i,
    {
        if p[i] == 61 {
            return Some(i);
        }
        i = i + 1;
    }
    None
}

/// Parses a query or form string into key/value pairs: pieces split at
/// `&`, each split at its first `=`.
pub fn parse_pairs(s: &[u8]) -> (r: Vec<(Vec<u8>, Vec<u8>)>)
    ensures
        text::pair_views(r@) == pairs_of(s@),
{
    let pieces = text::split_bytes(s, 38);
    let mut out: Vec<(Vec<u8>, Vec<u8>)> = Vec::new();
    let mut i: usize = 0;
    while i < pieces.len()
        invariant
            0 <= i <= pieces@.len(),
            text::views_of(pieces@) == text::spec_split(s@, 38),
            pieces@.len() == pairs_of(s@).len(),
            out@.len() == i,
            forall|k: int| 0 <= k < i ==> text::pair_view(#[trigger] out@[k]) == pairs_of(s@)[k],
        decreases pieces@.len() - i,
    {
        let piece = &pieces[i];
        proof {
            assert(text::views_of(pieces@)[i as int] == pieces@[i as int]@);
            assert(pairs_of(s@)[i as int] == kv_of(pieces@[i as int]@));
        }
        match find_eq(piece.as_slice()) {
            Some(e) => {
                let plen = piece.len();
                assert(e < plen);
                let key = vstd::slice::slice_to_vec(
                    vstd::slice::slice_subrange(piece.as_slice(), 0, e),
                );
                let val = vstd::slice::slice_to_vec(
                    vstd::slice::slice_subrange(piece.as_slice(), e + 1, plen),
                );
                proof {
                    assert(key@ =~= piece@.take(first_eq_from(piece@, 0)));
                    assert(val@ =~= piece@.skip(first_eq_from(piece@, 0) + 1));
                }
                out.push((key, val));
            },
            None => {
                let key = vstd::slice::slice_to_vec(piece.as_slice());
                let val: Vec<u8> = Vec::new();
                proof {
                    assert(key@ == piece@);
                    assert(val@ =~= Seq::<u8>::empty());
                }
                out.push((key, val));
            },
        }
        proof {
            assert(text::pair_view(out@[i as int]) == pairs_of(s@)[i as int]);
        }
        i = i + 1;
    }
    proof {
        assert(text::pair_views(out@) =~= pairs_of(s@));
    }
    out
}

/// Runs one extractor against the request's captures, query and body.
pub fn extract_one(
    x: &ExtractorSpec,
    caps: &Vec<(Vec<u8>, Vec<u8>)>,
    query: &Vec<u8>,
    body: &Vec<u8>,
) -> (r: Result<Value, ExtractionError>)
    ensures
        match r {
            Ok(v) => extract_spec(*x, text::pair_views(caps@), query@, body@) == Ok::<
                ValueModel,
                (ErrorKind, Seq<u8>, Seq<u8>),
            >(value_model(v)),
            Err(e) => extract_spec(*x, text::pair_views(caps@), query@, body@) == Err::<
                ValueModel,
                (ErrorKind, Seq<u8>, Seq<u8>),
            >(err_model(e)),
        },
{
    match x {
        ExtractorSpec::PathText { name } => match text::lookup_pair(caps, name.as_slice()) {
            Some(v) => Ok(Value::Text(v)),
            None => Err(
                ExtractionError { kind: ErrorKind::MissingField, field: name.clone(), raw: Vec::new() },
            ),
        },
        ExtractorSpec::PathU32 { name } => match text::lookup_pair(caps, name.as_slice()) {
            Some(v) => match text::parse_u32(v.as_slice()) {
                Some(n) => Ok(Value::Uint(n)),
                None => Err(
                    ExtractionError { kind: ErrorKind::TypeMismatch, field: name.clone(), raw: v },
                ),
            },
            None => Err(
                ExtractionError { kind: ErrorKind::MissingField, field: name.clone(), raw: Vec::new() },
            ),
        },
        ExtractorSpec::QueryText { key } => {
            let pairs = parse_pairs(query.as_slice());
            match text::lookup_pair(&pairs, key.as_slice()) {
                Some(v) => Ok(Value::Text(v)),
                None => Err(
                    ExtractionError { kind: ErrorKind::MissingField, field: key.clone(), raw: Vec::new() },
                ),
            }
        },
        ExtractorSpec::FormText { key, limit } => {
            if body.len() > *limit {
                return Err(
                    ExtractionError { kind: ErrorKind::BodyTooLarge, field: key.clone(), raw: Vec::new() },
                );
            }
            if !pieces_ok(body.as_slice()) {
                return Err(
                    ExtractionError { kind: ErrorKind::MalformedBody, field: key.clone(), raw: body.clone() },
                );
            }
            let pairs = parse_pairs(body.as_slice());
            match text::lookup_pair(&pairs, key.as_slice()) {
                Some(v) => Ok(Value::Text(v)),
                None => Err(
                    ExtractionError { kind: ErrorKind::MissingField, field: key.clone(), raw: Vec::new() },
                ),
            }
        },
        ExtractorSpec::RawBody { limit } => {
            if body.len() > *limit {
                Err(ExtractionError { kind: ErrorKind::BodyTooLarge, field: Vec::new(), raw: Vec::new() })
            } else {
                Ok(Value::Bytes(body.clone()))
            }
        },
    }
}

/// Whether every `&`-piece of `s` carries an `=`.
fn pieces_ok(s: &[u8]) -> (r: bool)
    ensures
        r == pieces_well_formed(s@),
{
    let pieces = text::split_bytes(s, 38);
    let mut i: usize = 0;
    while i < pieces.len()
        invariant
            0 <= i <= pieces@.len(),
            text::views_of(pieces@) == text::spec_split(s@, 38),
            forall|k: int|
                0 <= k < i ==> first_eq_from(#[trigger] text::spec_split(s@, 38)[k], 0) >= 0,
        decreases pieces@.len() - i,
    {
        match find_eq(pieces[i].as_slice()) {
            Some(_) => {},
            None => {
                assert(first_eq_from(text::spec_split(s@, 38)[i as int], 0) < 0);
                return false;
            },
        }
        i = i + 1;
    }
    true
}

/// Runs the declared extractors in order; the first failure wins and
/// short-circuits, so a handler never sees partial data.
pub fn run_extractors(
    xs: &Vec<ExtractorSpec>,
    caps: &Vec<(Vec<u8>, Vec<u8>)>,
    query: &Vec<u8>,
    body: &Vec<u8>,
) -> (r: Result<Vec<Value>, ExtractionError>)
    ensures
        extraction_contract(xs@, text::pair_views(caps@), query@, body@, r),
{
    let ghost gcaps = text::pair_views(caps@);
    let mut vals: Vec<Value> = Vec::new();
    let mut i: usize = 0;
    while i < xs.len()
        invariant
            0 <= i <= xs@.len(),
            gcaps == text::pair_views(caps@),
            vals@.len() == i,
            forall|j: int|
                0 <= j < i ==> #[trigger] extract_spec(xs@[j], gcaps, query@, body@) == Ok::<
                    ValueModel,
                    (ErrorKind, Seq<u8>, Seq<u8>),
                >(value_model(vals@[j])),
        decreases xs@.len() - i,
    {
        match extract_one(&xs[i], caps, query, body) {
            Ok(v) => {
                vals.push(v);
            },
            Err(e) => {
                proof {
                    lemma_first_fail_some(xs@, gcaps, query@, body@, 0, i as int);
                }
                return Err(e);
            },
        }
        i = i + 1;
    }
    proof {
        lemma_first_fail_none(xs@, gcaps, query@, body@, 0);
    }
    Ok(vals)
}

} // verus!
