//! Route templates and the pattern matcher: literal and parameter path
//! segments, method sets, header guards, and the deterministic best-match
//! rule (fewest parameter segments first, then earliest registration).

use vstd::prelude::*;
use crate::text;

verus! {

/// An HTTP request method.
#[derive(Clone, Copy, PartialEq, Eq, Structural, Debug)]
pub enum Method {
    Get,
    Post,
    Put,
    Delete,
    Head,
    Patch,
    Options,
}

/// One segment of a route template: an exact literal, or a named parameter
/// that captures any non-empty request segment.
pub enum Segment {
    Literal(Vec<u8>),
    Param(Vec<u8>),
}

/// A guard demanding that the request carry the header `name` with exactly
/// the value `value`.
pub struct HeaderGuard {
    pub name: Vec<u8>,
    pub value: Vec<u8>,
}

/// A declarative route: path segments, the accepted method set, header
/// guards, an optional name for URL generation, and the index of its
/// handler in the dispatcher's handler table.
pub struct RouteTemplate {
    pub segments: Vec<Segment>,
    pub methods: Vec<Method>,
    pub guards: Vec<HeaderGuard>,
    pub name: Option<Vec<u8>>,
    pub handler: usize,
}

/// The route table: templates in registration order, and whether request
/// paths are normalized (duplicate slashes merged, trailing slash dropped)
/// before matching.
pub struct RouteTable {
    pub routes: Vec<RouteTemplate>,
    pub normalize: bool,
}

/// An inbound request, reduced to the plain values the engine reads.
pub struct Request {
    pub method: Method,
    pub path: Vec<u8>,
    pub query: Vec<u8>,
    pub headers: Vec<(Vec<u8>, Vec<u8>)>,
    pub body: Vec<u8>,
}

/// A successful match: the index of the winning template and the captured
/// parameters in declaration order.
pub struct MatchResult {
    pub route: usize,
    pub captures: Vec<(Vec<u8>, Vec<u8>)>,
}

/// The matcher's verdict. On no match, `method_mismatch` reports whether
/// some template agreed on path shape and guards and differed only in the
/// method, so the dispatcher may prefer a method-not-allowed response.
pub enum MatchOutcome {
    Matched(MatchResult),
    NoMatch { method_mismatch: bool },
}

/// Whether one template segment accepts one request segment: literals match
/// exactly and case-sensitively, parameters match any non-empty segment.
pub open spec fn seg_matches(seg: Segment, part: Seq<u8>) -> bool {
    match seg {
        Segment::Literal(l) => l@ == part,
        Segment::Param(_) => part.len() > 0,
    }
}

/// Positional agreement of a whole template with a request path: equal
/// segment counts and every position accepted.
pub open spec fn shape_matches(segs: Seq<Segment>, parts: Seq<Seq<u8>>) -> bool {
    &&& segs.len() == parts.len()
    &&& forall|i: int| 0 <= i < segs.len() ==> #[trigger] seg_matches(segs[i], parts[i])
}

/// Whether `m` is in the method set.
pub open spec fn allows_method(methods: Seq<Method>, m: Method) -> bool {
    exists|i: int| 0 <= i < methods.len() && methods[i] == m
}

/// Two method sets with no method in common.
pub open spec fn methods_disjoint(a: Seq<Method>, b: Seq<Method>) -> bool {
    forall|m: Method| allows_method(a, m) ==> !allows_method(b, m)
}

/// A guard passes exactly when the request carries that header pair.
pub open spec fn guard_passes(g: HeaderGuard, headers: Seq<(Seq<u8>, Seq<u8>)>) -> bool {
    text::has_pair(headers, g.name@, g.value@)
}

/// All guards of a template pass.
pub open spec fn guards_pass(gs: Seq<HeaderGuard>, headers: Seq<(Seq<u8>, Seq<u8>)>) -> bool {
    forall|i: int| 0 <= i < gs.len() ==> #[trigger] guard_passes(gs[i], headers)
}

/// Full eligibility of a template for a request: shape, method and guards.
pub open spec fn template_matches(
    t: RouteTemplate,
    parts: Seq<Seq<u8>>,
    m: Method,
    headers: Seq<(Seq<u8>, Seq<u8>)>,
) -> bool {
    &&& shape_matches(t.segments@, parts)
    &&& allows_method(t.methods@, m)
    &&& guards_pass(t.guards@, headers)
}

/// How many parameter segments a template has; the specificity measure.
pub open spec fn param_count(segs: Seq<Segment>) -> int
    decreases segs.len(),
{
    if segs.len() == 0 {
        0
    } else {
        param_count(segs.drop_last()) + if segs.last() is Param {
            1int
        } else {
            0int
        }
    }
}

/// The parameter names of a template, in declaration order.
pub open spec fn param_names(segs: Seq<Segment>) -> Seq<Seq<u8>>
    decreases segs.len(),
{
    if segs.len() == 0 {
        Seq::<Seq<u8>>::empty()
    } else {
        let rest = param_names(segs.drop_last());
        match segs.last() {
            Segment::Param(n) => rest.push(n@),
            Segment::Literal(_) => rest,
        }
    }
}

/// The capture list of a matched template: one (name, request segment)
/// pair per parameter segment, in declaration order.
pub open spec fn captures_of(segs: Seq<Segment>, parts: Seq<Seq<u8>>) -> Seq<(Seq<u8>, Seq<u8>)>
    decreases segs.len(),
{
    if segs.len() == 0 || parts.len() == 0 {
        Seq::<(Seq<u8>, Seq<u8>)>::empty()
    } else {
        let rest = captures_of(segs.drop_last(), parts.drop_last());
        match segs.last() {
            Segment::Param(n) => rest.push((n@, parts.last())),
            Segment::Literal(_) => rest,
        }
    }
}

/// The winning template among `routes` for a request, if any: a matching
/// template with the fewest parameter segments, the earliest-registered one
/// among equals.
pub open spec fn best_match(
    routes: Seq<RouteTemplate>,
    parts: Seq<Seq<u8>>,
    m: Method,
    headers: Seq<(Seq<u8>, Seq<u8>)>,
) -> Option<int>
    decreases routes.len(),
{
    if routes.len() == 0 {
        None
    } else {
        let prev = best_match(routes.drop_last(), parts, m, headers);
        let last = routes.len() - 1;
        if template_matches(routes[last], parts, m, headers) {
            match prev {
                None => Some(last),
                Some(j) => if param_count(routes[last].segments@) < param_count(
                    routes[j].segments@,
                ) {
                    Some(last)
                } else {
                    Some(j)
                },
            }
        } else {
            prev
        }
    }
}

/// Whether some template agrees with the request on shape and guards and
/// is ruled out by the method alone.
pub open spec fn method_only_mismatch(
    routes: Seq<RouteTemplate>,
    parts: Seq<Seq<u8>>,
    m: Method,
    headers: Seq<(Seq<u8>, Seq<u8>)>,
) -> bool {
    exists|i: int|
        0 <= i < routes.len() && #[trigger] shape_matches(routes[i].segments@, parts)
            && guards_pass(routes[i].guards@, headers) && !allows_method(routes[i].methods@, m)
}

/// The request path as matched segments: split at slashes (a single
/// leading slash contributes nothing), empty segments dropped when the
/// table normalizes paths.
pub open spec fn request_parts(table: RouteTable, req: Request) -> Seq<Seq<u8>> {
    let tail = if req.path@.len() > 0 && req.path@[0] == 47 {
        req.path@.skip(1)
    } else {
        req.path@
    };
    let raw = text::spec_split(tail, 47);
    if table.normalize {
        text::non_empty(raw)
    } else {
        raw
    }
}

/// Everything `match_route` promises of its outcome, as one relation over
/// its inputs. Matching is a pure function of the route table, the path,
/// the method and the headers: this relation pins the outcome.
pub open spec fn match_contract(table: RouteTable, req: Request, r: MatchOutcome) -> bool {
    let parts = request_parts(table, req);
    let headers = text::pair_views(req.headers@);
    match r {
        MatchOutcome::Matched(mr) => {
            &&& best_match(table.routes@, parts, req.method, headers) == Some(mr.route as int)
            &&& mr.route < table.routes@.len()
            &&& text::pair_views(mr.captures@) == captures_of(
                table.routes@[mr.route as int].segments@,
                parts,
            )
        },
        MatchOutcome::NoMatch { method_mismatch } => {
            &&& best_match(table.routes@, parts, req.method, headers) is None
            &&& method_mismatch == method_only_mismatch(table.routes@, parts, req.method, headers)
        },
    }
}

/// The best-match rule, spelled out: when `best_match` returns an index,
/// that template matches, no matching template has fewer parameter
/// segments, and no earlier template matches equally specifically; when it
/// returns nothing, no template matches at all.
pub proof fn lemma_best_match_properties(
    routes: Seq<RouteTemplate>,
    parts: Seq<Seq<u8>>,
    m: Method,
    headers: Seq<(Seq<u8>, Seq<u8>)>,
)
    ensures
        match best_match(routes, parts, m, headers) {
            None => forall|i: int|
                0 <= i < routes.len() ==> !#[trigger] template_matches(routes[i], parts, m, headers),
            Some(j) => {
                &&& 0 <= j < routes.len()
                &&& template_matches(routes[j], parts, m, headers)
                &&& forall|i: int|
                    0 <= i < routes.len() && #[trigger] template_matches(
                        routes[i],
                        parts,
                        m,
                        headers,
                    ) ==> param_count(routes[j].segments@) <= param_count(routes[i].segments@)
                &&& forall|i: int|
                    0 <= i < routes.len() && #[trigger] template_matches(
                        routes[i],
                        parts,
                        m,
                        headers,
                    ) && param_count(routes[i].segments@) == param_count(routes[j].segments@)
                        ==> j <= i
            },
        },
    decreases routes.len(),
{
    if routes.len() > 0 {
        lemma_best_match_properties(routes.drop_last(), parts, m, headers);
        assert(forall|i: int|
            0 <= i < routes.len() - 1 ==> routes.drop_last()[i] == routes[i]);
    }
}

/// The ghost image of one template segment.
pub enum SegModel {
    Lit(Seq<u8>),
    Par(Seq<u8>),
}

pub open spec fn seg_model(s: Segment) -> SegModel {
    match s {
        Segment::Literal(l) => SegModel::Lit(l@),
        Segment::Param(n) => SegModel::Par(n@),
    }
}

pub open spec fn seg_models(segs: Seq<Segment>) -> Seq<SegModel> {
    segs.map_values(|s: Segment| seg_model(s))
}

/// How one piece of a route pattern reads: `{name}` declares a
/// parameter, anything else is a literal.
pub open spec fn seg_of_piece(p: Seq<u8>) -> SegModel {
    if p.len() >= 2 && p[0] == 123 && p.last() == 125 {
        SegModel::Par(p.subrange(1, p.len() - 1))
    } else {
        SegModel::Lit(p)
    }
}

/// The segments a route pattern declares: its non-empty slash-separated
/// pieces, each read as a literal or a `{name}` parameter.
pub open spec fn pattern_segments(pattern: Seq<u8>) -> Seq<SegModel> {
    let tail = if pattern.len() > 0 && pattern[0] == 47 {
        pattern.skip(1)
    } else {
        pattern
    };
    text::non_empty(text::spec_split(tail, 47)).map_values(|p: Seq<u8>| seg_of_piece(p))
}

/// Reads a route pattern such as a slash-joined list of literals and
/// `{name}` placeholders into template segments: the registration
/// surface of the table.
pub fn parse_route_pattern(pattern: &Vec<u8>) -> (r: Vec<Segment>)
    ensures
        seg_models(r@) == pattern_segments(pattern@),
{
    let pieces = path_parts(pattern, true);
    let ghost gpieces = text::views_of(pieces@);
    let mut segs: Vec<Segment> = Vec::new();
    proof {
        assert(seg_models(segs@) =~= gpieces.map_values(|p: Seq<u8>| seg_of_piece(p)).take(0));
    }
    let mut i: usize = 0;
    while i < pieces.len()
        invariant
            0 <= i <= pieces@.len(),
            gpieces == text::views_of(pieces@),
            segs@.len() == i,
            forall|k: int|
                0 <= k < i ==> seg_model(#[trigger] segs@[k]) == seg_of_piece(gpieces[k]),
        decreases pieces@.len() - i,
    {
        let piece = &pieces[i];
        let n = piece.len();
        if n >= 2 && piece[0] == 123 && piece[n - 1] == 125 {
            let name = vstd::slice::slice_to_vec(
                vstd::slice::slice_subrange(piece.as_slice(), 1, n - 1),
            );
            proof {
                assert(name@ =~= piece@.subrange(1, piece@.len() - 1));
            }
            segs.push(Segment::Param(name));
        } else {
            let word = vstd::slice::slice_to_vec(piece.as_slice());
            segs.push(Segment::Literal(word));
        }
        proof {
            assert(seg_model(segs@[i as int]) == seg_of_piece(gpieces[i as int]));
        }
        i = i + 1;
    }
    proof {
        assert(seg_models(segs@) =~= pattern_segments(pattern@));
    }
    segs
}

impl RouteTable {
    /// An empty table; `normalize` turns the URL-normalization pass on.
    pub fn new(normalize: bool) -> (r: RouteTable)
        ensures
            r.routes@.len() == 0,
            r.normalize == normalize,
    {
        RouteTable { routes: Vec::new(), normalize }
    }

    /// Registers one template; registration order is the tie-break order.
    pub fn register(&mut self, t: RouteTemplate)
        ensures
            final(self).routes@ == old(self).routes@.push(t),
            final(self).normalize == old(self).normalize,
    {
        self.routes.push(t);
    }
}

/// Places a template under a scope: the scope's path prefix comes before
/// the template's own segments, and the scope's guards are inherited
/// ahead of the template's own.
pub fn apply_scope(prefix: Vec<Segment>, guards: Vec<HeaderGuard>, t: RouteTemplate) -> (r:
    RouteTemplate)
    ensures
        r.segments@ == prefix@ + t.segments@,
        r.guards@ == guards@ + t.guards@,
        r.methods@ == t.methods@,
        r.name == t.name,
        r.handler == t.handler,
{
    let RouteTemplate { segments, methods, guards: own_guards, name, handler } = t;
    let mut all_segments = prefix;
    let mut rest_segments = segments;
    all_segments.append(&mut rest_segments);
    let mut all_guards = guards;
    let mut rest_guards = own_guards;
    all_guards.append(&mut rest_guards);
    RouteTemplate { segments: all_segments, methods, guards: all_guards, name, handler }
}

/// Of two templates with the same path shape and disjoint method sets, a
/// request whose path fits the shape and whose method one of them accepts
/// matches exactly that one, never the other.
pub proof fn lemma_disjoint_methods_match_one(
    a: RouteTemplate,
    b: RouteTemplate,
    parts: Seq<Seq<u8>>,
    m: Method,
    headers: Seq<(Seq<u8>, Seq<u8>)>,
)
    requires
        a.segments@ == b.segments@,
        methods_disjoint(a.methods@, b.methods@),
        a.guards@.len() == 0,
        b.guards@.len() == 0,
        shape_matches(a.segments@, parts),
        allows_method(a.methods@, m),
    ensures
        template_matches(a, parts, m, headers),
        !template_matches(b, parts, m, headers),
{
}

/// The table-level reading of the same rule: a table holding exactly such
/// a pair resolves the request to the template whose method set holds the
/// request's method, wherever the pair stands in registration order.
pub proof fn lemma_disjoint_pair_resolves(
    a: RouteTemplate,
    b: RouteTemplate,
    parts: Seq<Seq<u8>>,
    m: Method,
    headers: Seq<(Seq<u8>, Seq<u8>)>,
)
    requires
        a.segments@ == b.segments@,
        methods_disjoint(a.methods@, b.methods@),
        a.guards@.len() == 0,
        b.guards@.len() == 0,
        shape_matches(a.segments@, parts),
        allows_method(a.methods@, m),
    ensures
        best_match(seq![a, b], parts, m, headers) == Some(0int),
        best_match(seq![b, a], parts, m, headers) == Some(1int),
{
    lemma_disjoint_methods_match_one(a, b, parts, m, headers);
    assert(best_match(Seq::<RouteTemplate>::empty(), parts, m, headers) is None);
    assert(seq![a].drop_last() =~= Seq::<RouteTemplate>::empty());
    assert(best_match(seq![a], parts, m, headers) == Some(0int));
    assert(seq![a, b].drop_last() =~= seq![a]);
    assert(best_match(seq![a, b], parts, m, headers) == Some(0int));
    assert(seq![b].drop_last() =~= Seq::<RouteTemplate>::empty());
    assert(best_match(seq![b], parts, m, headers) is None);
    assert(seq![b, a].drop_last() =~= seq![b]);
    assert(best_match(seq![b, a], parts, m, headers) == Some(1int));
}

/// The capture list of a matched template pairs exactly the template's
/// parameter names, in declaration order, one capture per parameter.
pub proof fn lemma_capture_keys(segs: Seq<Segment>, parts: Seq<Seq<u8>>)
    requires
        segs.len() == parts.len(),
    ensures
        captures_of(segs, parts).map_values(|p: (Seq<u8>, Seq<u8>)| p.0) == param_names(segs),
        captures_of(segs, parts).len() == param_count(segs),
    decreases segs.len(),
{
    if segs.len() == 0 {
        assert(captures_of(segs, parts).map_values(|p: (Seq<u8>, Seq<u8>)| p.0) =~= param_names(
            segs,
        ));
    } else {
        lemma_capture_keys(segs.drop_last(), parts.drop_last());
        assert(captures_of(segs, parts).map_values(|p: (Seq<u8>, Seq<u8>)| p.0) =~= param_names(
            segs,
        ));
    }
}

/// Any successful match hands out captures whose key list is exactly the
/// winning template's parameter name list, in declaration order, one
/// capture per parameter segment.
pub proof fn lemma_match_captures_keys(table: RouteTable, req: Request, mr: MatchResult)
    requires
        match_contract(table, req, MatchOutcome::Matched(mr)),
    ensures
        text::pair_views(mr.captures@).map_values(|p: (Seq<u8>, Seq<u8>)| p.0) == param_names(
            table.routes@[mr.route as int].segments@,
        ),
        mr.captures@.len() == param_count(table.routes@[mr.route as int].segments@),
{
    let parts = request_parts(table, req);
    let headers = text::pair_views(req.headers@);
    lemma_best_match_properties(table.routes@, parts, req.method, headers);
    lemma_capture_keys(table.routes@[mr.route as int].segments@, parts);
}

/// A template guarded on a header pair never matches a request that does
/// not carry that exact pair, whatever its path and method.
pub proof fn lemma_guard_blocks(
    t: RouteTemplate,
    k: int,
    parts: Seq<Seq<u8>>,
    m: Method,
    headers: Seq<(Seq<u8>, Seq<u8>)>,
)
    requires
        0 <= k < t.guards@.len(),
        forall|j: int|
            0 <= j < headers.len() ==> !(headers[j].0 == t.guards@[k].name@ && headers[j].1
                == t.guards@[k].value@),
    ensures
        !template_matches(t, parts, m, headers),
{
    assert(!text::has_pair(headers, t.guards@[k].name@, t.guards@[k].value@));
    assert(!guard_passes(t.guards@[k], headers));
}

/// Matching is a pure function of the route table, the path, the method
/// and the headers: any two outcomes that `match_contract` admits for the
/// same inputs agree.
pub proof fn lemma_match_deterministic(
    table: RouteTable,
    req: Request,
    r1: MatchOutcome,
    r2: MatchOutcome,
)
    requires
        match_contract(table, req, r1),
        match_contract(table, req, r2),
    ensures
        match (r1, r2) {
            (MatchOutcome::Matched(a), MatchOutcome::Matched(b)) => a.route == b.route
                && text::pair_views(a.captures@) == text::pair_views(b.captures@),
            (
                MatchOutcome::NoMatch { method_mismatch: h1 },
                MatchOutcome::NoMatch { method_mismatch: h2 },
            ) => h1 == h2,
            _ => false,
        },
{
}

/// Whether one template segment accepts one request segment.
fn seg_match(seg: &Segment, part: &Vec<u8>) -> (r: bool)
    ensures
        r == seg_matches(*seg, part@),
{
    match seg {
        Segment::Literal(l) => text::bytes_eq(l.as_slice(), part.as_slice()),
        Segment::Param(_) => part.len() > 0,
    }
}

/// Positional agreement of a whole template with a request path.
fn shape_match(segs: &Vec<Segment>, parts: &Vec<Vec<u8>>) -> (r: bool)
    ensures
        r == shape_matches(segs@, text::views_of(parts@)),
{
    if segs.len() != parts.len() {
        return false;
    }
    let mut i: usize = 0;
    while i < segs.len()
        invariant
            0 <= i <= segs@.len(),
            segs@.len() == parts@.len(),
            forall|k: int|
                0 <= k < i ==> #[trigger] seg_matches(segs@[k], text::views_of(parts@)[k]),
        decreases segs@.len() - i,
    {
        if !seg_match(&segs[i], &parts[i]) {
            assert(!seg_matches(segs@[i as int], text::views_of(parts@)[i as int]));
            return false;
        }
        i = i + 1;
    }
    true
}

/// Whether `m` is in the method set.
fn method_allowed(methods: &Vec<Method>, m: Method) -> (r: bool)
    ensures
        r == allows_method(methods@, m),
{
    let mut i: usize = 0;
    while i < methods.len()
        invariant
            0 <= i <= methods@.len(),
            forall|k: int| 0 <= k < i ==> methods@[k] != m,
        decreases methods@.len() - i,
    {
        if methods[i] == m {
            return true;
        }
        i = i + 1;
    }
    false
}

/// Whether the request carries the guard's header pair.
fn guard_eval(g: &HeaderGuard, headers: &Vec<(Vec<u8>, Vec<u8>)>) -> (r: bool)
    ensures
        r == guard_passes(*g, text::pair_views(headers@)),
{
    let mut i: usize = 0;
    while i < headers.len()
        invariant
            0 <= i <= headers@.len(),
            forall|k: int|
                0 <= k < i ==> !(text::pair_views(headers@)[k].0 == g.name@ && text::pair_views(
                    headers@,
                )[k].1 == g.value@),
        decreases headers@.len() - i,
    {
        if text::bytes_eq(headers[i].0.as_slice(), g.name.as_slice()) && text::bytes_eq(
            headers[i].1.as_slice(),
            g.value.as_slice(),
        ) {
            assert(text::pair_views(headers@)[i as int].0 == g.name@);
            assert(text::pair_views(headers@)[i as int].1 == g.value@);
            return true;
        }
        i = i + 1;
    }
    assert(!text::has_pair(text::pair_views(headers@), g.name@, g.value@));
    false
}

/// Whether every guard of a template passes.
fn guards_eval(gs: &Vec<HeaderGuard>, headers: &Vec<(Vec<u8>, Vec<u8>)>) -> (r: bool)
    ensures
        r == guards_pass(gs@, text::pair_views(headers@)),
{
    let mut i: usize = 0;
    while i < gs.len()
        invariant
            0 <= i <= gs@.len(),
            forall|k: int| 0 <= k < i ==> #[trigger] guard_passes(gs@[k], text::pair_views(headers@)),
        decreases gs@.len() - i,
    {
        if !guard_eval(&gs[i], headers) {
            assert(!guard_passes(gs@[i as int], text::pair_views(headers@)));
            return false;
        }
        i = i + 1;
    }
    true
}

/// Counts the parameter segments of a template.
fn count_params(segs: &Vec<Segment>) -> (r: usize)
    ensures
        r as int == param_count(segs@),
{
    let mut n: usize = 0;
    let mut i: usize = 0;
    while i < segs.len()
        invariant
            0 <= i <= segs@.len(),
            n <= i,
            n as int == param_count(segs@.take(i as int)),
        decreases segs@.len() - i,
    {
        proof {
            assert(segs@.take(i + 1).drop_last() =~= segs@.take(i as int));
            assert(segs@.take(i + 1).last() == segs@[i as int]);
        }
        match &segs[i] {
            Segment::Param(_) => {
                n = n + 1;
            },
            Segment::Literal(_) => {},
        }
        i = i + 1;
    }
    proof {
        assert(segs@.take(i as int) =~= segs@);
    }
    n
}

/// Builds the capture list of a matched template, in declaration order.
fn build_captures(segs: &Vec<Segment>, parts: &Vec<Vec<u8>>) -> (r: Vec<(Vec<u8>, Vec<u8>)>)
    requires
        segs@.len() == parts@.len(),
    ensures
        text::pair_views(r@) == captures_of(segs@, text::views_of(parts@)),
{
    let mut caps: Vec<(Vec<u8>, Vec<u8>)> = Vec::new();
    proof {
        assert(text::pair_views(caps@) =~= captures_of(
            segs@.take(0),
            text::views_of(parts@).take(0),
        ));
    }
    let mut i: usize = 0;
    while i < segs.len()
        invariant
            0 <= i <= segs@.len(),
            segs@.len() == parts@.len(),
            text::pair_views(caps@) == captures_of(
                segs@.take(i as int),
                text::views_of(parts@).take(i as int),
            ),
        decreases segs@.len() - i,
    {
        proof {
            assert(segs@.take(i + 1).drop_last() =~= segs@.take(i as int));
            assert(segs@.take(i + 1).last() == segs@[i as int]);
            assert(text::views_of(parts@).take(i + 1).drop_last() =~= text::views_of(
                parts@,
            ).take(i as int));
            assert(text::views_of(parts@).take(i + 1).last() == parts@[i as int]@);
        }
        match &segs[i] {
            Segment::Param(name) => {
                let cap_name = name.clone();
                let cap_value = parts[i].clone();
                caps.push((cap_name, cap_value));
                proof {
                    assert(text::pair_views(caps@) =~= captures_of(
                        segs@.take(i + 1),
                        text::views_of(parts@).take(i + 1),
                    ));
                }
            },
            Segment::Literal(_) => {
                proof {
                    assert(text::pair_views(caps@) =~= captures_of(
                        segs@.take(i + 1),
                        text::views_of(parts@).take(i + 1),
                    ));
                }
            },
        }
        i = i + 1;
    }
    proof {
        assert(segs@.take(i as int) =~= segs@);
        assert(text::views_of(parts@).take(i as int) =~= text::views_of(parts@));
    }
    caps
}

/// Splits a request path into matchable segments, normalizing when the
/// table asks for it.
pub fn path_parts(path: &Vec<u8>, normalize: bool) -> (r: Vec<Vec<u8>>)
    ensures
        normalize ==> text::views_of(r@) == text::non_empty(
            text::spec_split(
                if path@.len() > 0 && path@[0] == 47 {
                    path@.skip(1)
                } else {
                    path@
                },
                47,
            ),
        ),
        !normalize ==> text::views_of(r@) == text::spec_split(
            if path@.len() > 0 && path@[0] == 47 {
                path@.skip(1)
            } else {
                path@
            },
            47,
        ),
{
    let s = path.as_slice();
    let tail: &[u8] = if s.len() > 0 && s[0] == 47 {
        let sub = vstd::slice::slice_subrange(s, 1, s.len());
        proof {
            assert(sub@ =~= path@.skip(1));
        }
        sub
    } else {
        s
    };
    let raw = text::split_bytes(tail, 47);
    if normalize {
        text::keep_non_empty(raw)
    } else {
        raw
    }
}

/// Matches a request against the table: resolves the unique best matching
/// template or reports no match, with a hint when only the method stood in
/// the way. The outcome is the one `match_contract` pins for these inputs.
pub fn match_route(table: &RouteTable, req: &Request) -> (r: MatchOutcome)
    ensures
        match_contract(*table, *req, r),
{
    let parts = path_parts(&req.path, table.normalize);
    proof {
        assert(text::views_of(parts@) == request_parts(*table, *req));
    }
    let ghost gparts = text::views_of(parts@);
    let ghost gheaders = text::pair_views(req.headers@);
    let routes = &table.routes;
    let mut best_idx: usize = 0;
    let mut best_count: usize = 0;
    let mut have_best: bool = false;
    let mut hint: bool = false;
    let mut i: usize = 0;
    proof {
        assert(routes@.take(0) =~= Seq::<RouteTemplate>::empty());
    }
    while i < routes.len()
        invariant
            0 <= i <= routes@.len(),
            gparts == request_parts(*table, *req),
            gparts == text::views_of(parts@),
            gheaders == text::pair_views(req.headers@),
            have_best ==> {
                &&& best_idx < i
                &&& best_match(routes@.take(i as int), gparts, req.method, gheaders) == Some(
                    best_idx as int,
                )
                &&& best_count as int == param_count(routes@[best_idx as int].segments@)
            },
            !have_best ==> best_match(routes@.take(i as int), gparts, req.method, gheaders)
                is None,
            hint == method_only_mismatch(routes@.take(i as int), gparts, req.method, gheaders),
        decreases routes@.len() - i,
    {
        proof {
            assert(routes@.take(i + 1).drop_last() =~= routes@.take(i as int));
            assert(routes@.take(i + 1).last() == routes@[i as int]);
            assert(forall|k: int| 0 <= k < i + 1 ==> routes@.take(i + 1)[k] == routes@[k]);
        }
        let t = &routes[i];
        let shape_ok = shape_match(&t.segments, &parts);
        let method_ok = method_allowed(&t.methods, req.method);
        let guards_ok = guards_eval(&t.guards, &req.headers);
        if shape_ok && method_ok && guards_ok {
            assert(template_matches(routes@[i as int], gparts, req.method, gheaders));
            let cnt = count_params(&t.segments);
            if !have_best || cnt < best_count {
                best_idx = i;
                best_count = cnt;
                have_best = true;
            }
        } else {
            assert(!template_matches(routes@[i as int], gparts, req.method, gheaders));
            if shape_ok && guards_ok && !method_ok {
                hint = true;
            }
        }
        proof {
            if hint {
                assert(method_only_mismatch(routes@.take(i + 1), gparts, req.method, gheaders));
            } else {
                assert(forall|k: int|
                    0 <= k < i + 1 && #[trigger] shape_matches(
                        routes@.take(i + 1)[k].segments@,
                        gparts,
                    ) && guards_pass(routes@.take(i + 1)[k].guards@, gheaders) ==> allows_method(
                        routes@.take(i + 1)[k].methods@,
                        req.method,
                    ));
            }
        }
        i = i + 1;
    }
    proof {
        assert(routes@.take(i as int) =~= routes@);
    }
    if have_best {
        let t = &routes[best_idx];
        proof {
            lemma_best_match_properties(routes@, gparts, req.method, gheaders);
            assert(template_matches(routes@[best_idx as int], gparts, req.method, gheaders));
        }
        let caps = build_captures(&t.segments, &parts);
        MatchOutcome::Matched(MatchResult { route: best_idx, captures: caps })
    } else {
        MatchOutcome::NoMatch { method_mismatch: hint }
    }
}

} // verus!
