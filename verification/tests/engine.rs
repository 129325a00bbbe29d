use route_engine::dispatch::{Dispatcher, HandlerEntry, HandlerKind};
use route_engine::errors::{DomainError, Translator};
use route_engine::extract::ExtractorSpec;
use route_engine::pattern::{
    HeaderGuard, MatchOutcome, Method, Request, RouteTable, RouteTemplate, Segment, apply_scope,
    match_route,
};

fn bv(s: &str) -> Vec<u8> {
    s.as_bytes().to_vec()
}

fn lit(s: &str) -> Segment {
    Segment::Literal(bv(s))
}

fn par(s: &str) -> Segment {
    Segment::Param(bv(s))
}

fn get_request(path: &str) -> Request {
    Request {
        method: Method::Get,
        path: bv(path),
        query: Vec::new(),
        headers: Vec::new(),
        body: Vec::new(),
    }
}

fn route(
    segments: Vec<Segment>,
    methods: Vec<Method>,
    guards: Vec<HeaderGuard>,
    handler: usize,
) -> RouteTemplate {
    RouteTemplate { segments, methods, guards, name: None, handler }
}

fn plain_handler(status: u16, body: &str) -> HandlerEntry {
    HandlerEntry {
        extractors: Vec::new(),
        kind: HandlerKind::Fixed { status, body: bv(body) },
    }
}

/// A small demo engine under `/testing`: a GET page, a JSON counter
/// report, and a countdown event stream.
fn testing_dispatcher() -> Dispatcher {
    let mut table = RouteTable::new(true);
    table.register(route(vec![lit("testing")], vec![Method::Get], Vec::new(), 0));
    table.register(route(
        vec![lit("testing"), lit("app-data")],
        vec![Method::Get],
        Vec::new(),
        1,
    ));
    table.register(route(
        vec![lit("testing"), lit("stream")],
        vec![Method::Get],
        Vec::new(),
        2,
    ));
    let handlers = vec![
        plain_handler(200, "hello: /testing"),
        HandlerEntry {
            extractors: Vec::new(),
            kind: HandlerKind::JsonCounter { counter: 3 },
        },
        HandlerEntry {
            extractors: Vec::new(),
            kind: HandlerKind::Countdown { from: 5 },
        },
    ];
    Dispatcher { table, handlers, translator: Translator::new() }
}

fn body_of(flushes: &Vec<Vec<u8>>) -> Vec<u8> {
    let mut out = Vec::new();
    for f in flushes {
        out.extend_from_slice(f.as_slice());
    }
    out
}

#[test]
fn test_index_ok() {
    let mut d = testing_dispatcher();
    let res = d.dispatch(&get_request("/testing"), false);
    assert_eq!(res.status, 200);
}

#[test]
fn test_index_not_ok() {
    let mut d = testing_dispatcher();
    let res = d.dispatch(&get_request("/testing"), false);
    assert_ne!(res.status, 400);
}

#[test]
fn test_index_get() {
    let mut d = testing_dispatcher();
    let res = d.dispatch(&get_request("/testing"), false);
    assert!(200 <= res.status && res.status < 300);
}

#[test]
fn test_index_post() {
    let mut d = testing_dispatcher();
    let req = Request {
        method: Method::Post,
        path: bv("/testing"),
        query: Vec::new(),
        headers: Vec::new(),
        body: Vec::new(),
    };
    let res = d.dispatch(&req, false);
    assert!(400 <= res.status && res.status < 500);
}

#[test]
fn test_index_app_data() {
    let mut d = testing_dispatcher();
    let res = d.dispatch(&get_request("/testing/app-data"), false);
    assert_eq!(body_of(&res.flushes), bv("{\"counter\":4}"));
}

#[test]
fn test_stream_chunk() {
    let mut d = testing_dispatcher();
    let res = d.dispatch(&get_request("/testing/stream"), false);
    assert!(200 <= res.status && res.status < 300);
    assert_eq!(res.flushes[0], bv("data: 5\n\n"));
    assert_eq!(res.flushes[1], bv("data: 4\n\n"));
    for i in 0..3usize {
        let expected = format!("data: {}\n\n", 3 - i);
        assert_eq!(res.flushes[2 + i], expected.as_bytes().to_vec());
    }
}

#[test]
fn test_stream_full_payload() {
    let mut d = testing_dispatcher();
    let res = d.dispatch(&get_request("/testing/stream"), false);
    assert!(200 <= res.status && res.status < 300);
    assert_eq!(
        body_of(&res.flushes),
        bv("data: 5\n\ndata: 4\n\ndata: 3\n\ndata: 2\n\ndata: 1\n\n")
    );
}

#[test]
fn literal_beats_parameter_at_same_depth() {
    let mut table = RouteTable::new(true);
    table.register(route(
        vec![lit("users"), par("id")],
        vec![Method::Get],
        Vec::new(),
        0,
    ));
    table.register(route(
        vec![lit("users"), lit("active")],
        vec![Method::Get],
        Vec::new(),
        1,
    ));
    let handlers = vec![plain_handler(200, "param route"), plain_handler(200, "literal route")];
    let mut d = Dispatcher { table, handlers, translator: Translator::new() };
    let res = d.dispatch(&get_request("/users/active"), false);
    assert_eq!(body_of(&res.flushes), bv("literal route"));
    let res2 = d.dispatch(&get_request("/users/17"), false);
    assert_eq!(body_of(&res2.flushes), bv("param route"));
}

#[test]
fn echo_returns_body_verbatim() {
    let mut table = RouteTable::new(true);
    table.register(route(vec![lit("echo")], vec![Method::Post], Vec::new(), 0));
    let handlers = vec![HandlerEntry { extractors: Vec::new(), kind: HandlerKind::Echo }];
    let mut d = Dispatcher { table, handlers, translator: Translator::new() };
    let req = Request {
        method: Method::Post,
        path: bv("/echo"),
        query: Vec::new(),
        headers: Vec::new(),
        body: bv("ping"),
    };
    let res = d.dispatch(&req, false);
    assert_eq!(res.status, 200);
    assert_eq!(body_of(&res.flushes), bv("ping"));
}

#[test]
fn oversized_body_never_reaches_the_handler() {
    let mut table = RouteTable::new(true);
    table.register(route(vec![lit("upload")], vec![Method::Post], Vec::new(), 0));
    let handlers = vec![HandlerEntry {
        extractors: vec![ExtractorSpec::RawBody { limit: 10 }],
        kind: HandlerKind::Fixed { status: 200, body: bv("handled") },
    }];
    let mut d = Dispatcher { table, handlers, translator: Translator::new() };
    let req = Request {
        method: Method::Post,
        path: bv("/upload"),
        query: Vec::new(),
        headers: Vec::new(),
        body: bv("0123456789X"),
    };
    let res = d.dispatch(&req, false);
    assert!(400 <= res.status && res.status < 500);
    assert_ne!(body_of(&res.flushes), bv("handled"));
    let just_fits = Request { body: bv("0123456789"), ..req };
    let res2 = d.dispatch(&just_fits, false);
    assert_eq!(res2.status, 200);
    assert_eq!(body_of(&res2.flushes), bv("handled"));
}

#[test]
fn disjoint_methods_pick_exactly_one_route() {
    let mut table = RouteTable::new(true);
    table.register(route(vec![lit("thing")], vec![Method::Get], Vec::new(), 0));
    table.register(route(vec![lit("thing")], vec![Method::Post], Vec::new(), 1));
    let handlers = vec![plain_handler(200, "got"), plain_handler(201, "posted")];
    let mut d = Dispatcher { table, handlers, translator: Translator::new() };
    let res = d.dispatch(&get_request("/thing"), false);
    assert_eq!(body_of(&res.flushes), bv("got"));
    let post = Request {
        method: Method::Post,
        path: bv("/thing"),
        query: Vec::new(),
        headers: Vec::new(),
        body: Vec::new(),
    };
    let res2 = d.dispatch(&post, false);
    assert_eq!(body_of(&res2.flushes), bv("posted"));
}

#[test]
fn route_patterns_parse_into_segments() {
    let segs = route_engine::pattern::parse_route_pattern(&bv("/users/{id}"));
    assert_eq!(segs.len(), 2);
    match &segs[0] {
        Segment::Literal(l) => assert_eq!(*l, bv("users")),
        _ => panic!("expected a literal segment"),
    }
    match &segs[1] {
        Segment::Param(n) => assert_eq!(*n, bv("id")),
        _ => panic!("expected a parameter segment"),
    }

    let odd = route_engine::pattern::parse_route_pattern(&bv("//a/{x/"));
    assert_eq!(odd.len(), 2);
    match &odd[1] {
        Segment::Literal(l) => assert_eq!(*l, bv("{x")),
        _ => panic!("an unclosed brace stays a literal"),
    }

    let mut table = RouteTable::new(true);
    table.register(route(
        route_engine::pattern::parse_route_pattern(&bv("/users/{id}")),
        vec![Method::Get],
        Vec::new(),
        0,
    ));
    table.register(route(
        route_engine::pattern::parse_route_pattern(&bv("/users/active")),
        vec![Method::Get],
        Vec::new(),
        1,
    ));
    let handlers = vec![plain_handler(200, "param route"), plain_handler(200, "literal route")];
    let mut d = Dispatcher { table, handlers, translator: Translator::new() };
    let res = d.dispatch(&get_request("/users/active"), false);
    assert_eq!(body_of(&res.flushes), bv("literal route"));
}

#[test]
fn captures_follow_declaration_order() {
    let mut table = RouteTable::new(true);
    table.register(route(
        vec![lit("posts"), par("post_id"), par("friend")],
        vec![Method::Get],
        Vec::new(),
        0,
    ));
    let req = get_request("/posts/12/maria");
    match match_route(&table, &req) {
        MatchOutcome::Matched(mr) => {
            assert_eq!(mr.route, 0);
            assert_eq!(mr.captures.len(), 2);
            assert_eq!(mr.captures[0].0, bv("post_id"));
            assert_eq!(mr.captures[0].1, bv("12"));
            assert_eq!(mr.captures[1].0, bv("friend"));
            assert_eq!(mr.captures[1].1, bv("maria"));
        }
        MatchOutcome::NoMatch { .. } => panic!("expected a match"),
    }
}

#[test]
fn header_guard_blocks_mismatched_requests() {
    let mut table = RouteTable::new(true);
    table.register(route(
        vec![lit("host-page")],
        vec![Method::Get],
        vec![HeaderGuard { name: bv("host"), value: bv("www.rust-lang.org") }],
        0,
    ));
    let handlers = vec![plain_handler(200, "www")];
    let mut d = Dispatcher { table, handlers, translator: Translator::new() };

    let bare = d.dispatch(&get_request("/host-page"), false);
    assert_eq!(bare.status, 404);

    let wrong = Request {
        headers: vec![(bv("host"), bv("users.rust-lang.org"))],
        ..get_request("/host-page")
    };
    assert_eq!(d.dispatch(&wrong, false).status, 404);

    let right = Request {
        headers: vec![(bv("host"), bv("www.rust-lang.org"))],
        ..get_request("/host-page")
    };
    let res = d.dispatch(&right, false);
    assert_eq!(res.status, 200);
    assert_eq!(body_of(&res.flushes), bv("www"));
}

#[test]
fn matching_is_repeatable() {
    let table = {
        let mut t = RouteTable::new(true);
        t.register(route(
            vec![lit("users"), par("id")],
            vec![Method::Get],
            Vec::new(),
            0,
        ));
        t
    };
    let req = get_request("/users/42");
    let first = match_route(&table, &req);
    let second = match_route(&table, &req);
    match (first, second) {
        (MatchOutcome::Matched(a), MatchOutcome::Matched(b)) => {
            assert_eq!(a.route, b.route);
            assert_eq!(a.captures, b.captures);
        }
        _ => panic!("expected both calls to match"),
    }
}

#[test]
fn method_mismatch_reports_405_and_absence_404() {
    let mut table = RouteTable::new(true);
    table.register(route(vec![lit("only-get")], vec![Method::Get], Vec::new(), 0));
    let handlers = vec![plain_handler(200, "ok")];
    let mut d = Dispatcher { table, handlers, translator: Translator::new() };
    let post = Request {
        method: Method::Post,
        path: bv("/only-get"),
        query: Vec::new(),
        headers: Vec::new(),
        body: Vec::new(),
    };
    assert_eq!(d.dispatch(&post, false).status, 405);
    assert_eq!(d.dispatch(&get_request("/absent"), false).status, 404);
}

#[test]
fn normalization_merges_slashes_and_trailing_slash() {
    let mut table = RouteTable::new(true);
    table.register(route(vec![lit("a"), lit("b")], vec![Method::Get], Vec::new(), 0));
    let handlers = vec![plain_handler(200, "ok")];
    let mut d = Dispatcher { table, handlers, translator: Translator::new() };
    assert_eq!(d.dispatch(&get_request("//a///b/"), false).status, 200);

    let mut strict_table = RouteTable::new(false);
    strict_table.register(route(vec![lit("a"), lit("b")], vec![Method::Get], Vec::new(), 0));
    let mut strict = Dispatcher {
        table: strict_table,
        handlers: vec![plain_handler(200, "ok")],
        translator: Translator::new(),
    };
    assert_eq!(strict.dispatch(&get_request("//a///b/"), false).status, 404);
    assert_eq!(strict.dispatch(&get_request("/a/b"), false).status, 200);
}

#[test]
fn scoped_routes_inherit_prefix_and_guards() {
    let scoped = apply_scope(
        vec![lit("users")],
        vec![HeaderGuard { name: bv("x-tenant"), value: bv("acme") }],
        route(vec![lit("show")], vec![Method::Get], Vec::new(), 0),
    );
    assert_eq!(scoped.segments.len(), 2);
    assert_eq!(scoped.guards.len(), 1);
    let mut table = RouteTable::new(true);
    table.register(scoped);
    let handlers = vec![plain_handler(200, "Show users")];
    let mut d = Dispatcher { table, handlers, translator: Translator::new() };
    let guarded = Request {
        headers: vec![(bv("x-tenant"), bv("acme"))],
        ..get_request("/users/show")
    };
    let res = d.dispatch(&guarded, false);
    assert_eq!(body_of(&res.flushes), bv("Show users"));
    assert_eq!(d.dispatch(&get_request("/users/show"), false).status, 404);
}

#[test]
fn guard_failure_falls_through_to_other_candidates() {
    let mut table = RouteTable::new(true);
    table.register(route(
        Vec::new(),
        vec![Method::Get],
        vec![HeaderGuard { name: bv("host"), value: bv("www.rust-lang.org") }],
        0,
    ));
    table.register(route(
        Vec::new(),
        vec![Method::Get],
        vec![HeaderGuard { name: bv("host"), value: bv("users.rust-lang.org") }],
        1,
    ));
    let handlers = vec![plain_handler(200, "www"), plain_handler(200, "user")];
    let mut d = Dispatcher { table, handlers, translator: Translator::new() };
    let to_users = Request {
        headers: vec![(bv("host"), bv("users.rust-lang.org"))],
        ..get_request("/")
    };
    let res = d.dispatch(&to_users, false);
    assert_eq!(body_of(&res.flushes), bv("user"));
}

#[test]
fn path_parameter_flows_into_the_handler() {
    let mut table = RouteTable::new(true);
    table.register(route(
        vec![lit("users"), par("name")],
        vec![Method::Get],
        Vec::new(),
        0,
    ));
    let handlers = vec![HandlerEntry {
        extractors: vec![ExtractorSpec::PathText { name: bv("name") }],
        kind: HandlerKind::Greet { prefix: bv("Welcome ") },
    }];
    let mut d = Dispatcher { table, handlers, translator: Translator::new() };
    let res = d.dispatch(&get_request("/users/maria"), false);
    assert_eq!(res.status, 200);
    assert_eq!(body_of(&res.flushes), bv("Welcome maria"));
}

#[test]
fn domain_errors_use_the_mapping_table() {
    let mut translator = Translator::new();
    translator.add_mapping(DomainError::InternalError, 500, bv("internal error"));
    translator.add_mapping(DomainError::BadClientData, 400, bv("bad request"));
    translator.add_mapping(DomainError::Timeout, 504, bv("timeout"));
    let mut table = RouteTable::new(true);
    table.register(route(vec![lit("custom-error-enum")], vec![Method::Get], Vec::new(), 0));
    let handlers = vec![HandlerEntry {
        extractors: Vec::new(),
        kind: HandlerKind::Fail { err: DomainError::BadClientData },
    }];
    let mut d = Dispatcher { table, handlers, translator };
    let res = d.dispatch(&get_request("/custom-error-enum"), false);
    assert_eq!(res.status, 400);
    assert_eq!(body_of(&res.flushes), bv("bad request"));
    assert_eq!(d.translator.log.len(), 1);
}

#[test]
fn unmapped_domain_error_falls_back_to_500() {
    let mut table = RouteTable::new(true);
    table.register(route(vec![lit("custom-error")], vec![Method::Get], Vec::new(), 0));
    let handlers = vec![HandlerEntry {
        extractors: Vec::new(),
        kind: HandlerKind::Fail { err: DomainError::InternalError },
    }];
    let mut d = Dispatcher { table, handlers, translator: Translator::new() };
    let res = d.dispatch(&get_request("/custom-error"), false);
    assert_eq!(res.status, 500);
    assert_eq!(body_of(&res.flushes), bv("internal error"));
}

#[test]
fn extraction_status_can_be_overridden() {
    let mut translator = Translator::new();
    translator.add_extraction_override(route_engine::extract::ErrorKind::BodyTooLarge, 409);
    let mut table = RouteTable::new(true);
    table.register(route(vec![lit("json")], vec![Method::Post], Vec::new(), 0));
    let handlers = vec![HandlerEntry {
        extractors: vec![ExtractorSpec::RawBody { limit: 4 }],
        kind: HandlerKind::Echo,
    }];
    let mut d = Dispatcher { table, handlers, translator };
    let req = Request {
        method: Method::Post,
        path: bv("/json"),
        query: Vec::new(),
        headers: Vec::new(),
        body: bv("too long"),
    };
    assert_eq!(d.dispatch(&req, false).status, 409);
}

#[test]
fn deadline_aborts_handling_with_timeout() {
    let mut d = testing_dispatcher();
    let res = d.dispatch(&get_request("/testing"), true);
    assert_eq!(res.status, 504);
    assert_eq!(body_of(&res.flushes), bv("timeout"));
}

#[test]
fn successful_dispatch_logs_nothing_failures_log_once() {
    let mut d = testing_dispatcher();
    let _ = d.dispatch(&get_request("/testing"), false);
    assert_eq!(d.translator.log.len(), 0);
    let _ = d.dispatch(&get_request("/absent"), false);
    assert_eq!(d.translator.log.len(), 1);
    assert_eq!(d.translator.log[0], bv("404 not found"));
}
