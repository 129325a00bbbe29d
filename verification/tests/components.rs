use route_engine::dispatch::{DispatchEvent, Phase, advance};
use route_engine::errors::FailureKind;
use route_engine::extract::{
    ErrorKind, ExtractorSpec, Extractors, PostInfo, Value, extract_one, parse_pairs,
    run_extractors,
};
use route_engine::response::{
    BodyKind, ChunkCursor, CountdownCursor, JsonObject, JsonScalar, ResponseSpec, ResponseWriter,
    StreamBody, StreamStep, build_response, pump_stream, render_object, run_stream, stream_next,
};
use route_engine::state::{AppState, AppStateWithCounter, StateStruct};
use route_engine::text::{bytes_eq, i64_to_dec, lookup_pair, parse_u32, split_bytes, u64_to_dec};
use route_engine::pattern::{Method, RouteTemplate, Segment};
use route_engine::urls::{NamedUrlRegistry, UrlPiece, UrlTemplate, route_url_template};

fn bv(s: &str) -> Vec<u8> {
    s.as_bytes().to_vec()
}

fn concat(flushes: &Vec<Vec<u8>>) -> Vec<u8> {
    let mut out = Vec::new();
    for f in flushes {
        out.extend_from_slice(f.as_slice());
    }
    out
}

#[test]
fn parse_u32_exact_values() {
    assert_eq!(parse_u32(b"0"), Some(0));
    assert_eq!(parse_u32(b"42"), Some(42));
    assert_eq!(parse_u32(b"4294967295"), Some(u32::MAX));
    assert_eq!(parse_u32(b"4294967296"), None);
    assert_eq!(parse_u32(b""), None);
    assert_eq!(parse_u32(b"12a"), None);
    assert_eq!(parse_u32(b"-3"), None);
}

#[test]
fn decimal_rendering_exact_values() {
    assert_eq!(u64_to_dec(0), bv("0"));
    assert_eq!(u64_to_dec(12345), bv("12345"));
    assert_eq!(i64_to_dec(-7), bv("-7"));
    assert_eq!(i64_to_dec(0), bv("0"));
    assert_eq!(i64_to_dec(i64::MIN), bv("-9223372036854775808"));
}

#[test]
fn splitting_and_lookup() {
    let parts = split_bytes(b"a//b/", b'/');
    let expected: Vec<Vec<u8>> = vec![bv("a"), bv(""), bv("b"), bv("")];
    assert_eq!(parts, expected);
    assert!(bytes_eq(b"same", b"same"));
    assert!(!bytes_eq(b"same", b"sane"));
    let pairs = vec![(bv("k"), bv("1")), (bv("k"), bv("2")), (bv("x"), bv("y"))];
    assert_eq!(lookup_pair(&pairs, b"k"), Some(bv("1")));
    assert_eq!(lookup_pair(&pairs, b"missing"), None);
}

#[test]
fn query_pairs_parse_at_first_equals() {
    let pairs = parse_pairs(b"name=alice&flag&x=a=b");
    let expected = vec![(bv("name"), bv("alice")), (bv("flag"), bv("")), (bv("x"), bv("a=b"))];
    assert_eq!(pairs, expected);
}

#[test]
fn extractor_error_variants() {
    let caps = vec![(bv("id"), bv("seven"))];
    let query = bv("name=alice");
    let body = bv("username=sam");

    let missing = extract_one(&ExtractorSpec::PathText { name: bv("absent") }, &caps, &query, &body);
    assert_eq!(missing.unwrap_err().kind, ErrorKind::MissingField);

    let mismatch = extract_one(&ExtractorSpec::PathU32 { name: bv("id") }, &caps, &query, &body);
    let e = mismatch.unwrap_err();
    assert_eq!(e.kind, ErrorKind::TypeMismatch);
    assert_eq!(e.field, bv("id"));
    assert_eq!(e.raw, bv("seven"));

    let too_large = extract_one(&ExtractorSpec::RawBody { limit: 3 }, &caps, &query, &body);
    assert_eq!(too_large.unwrap_err().kind, ErrorKind::BodyTooLarge);

    let malformed = extract_one(
        &ExtractorSpec::FormText { key: bv("username"), limit: 1000 },
        &caps,
        &query,
        &bv("no-equals-here"),
    );
    assert_eq!(malformed.unwrap_err().kind, ErrorKind::MalformedBody);

    let query_hit = extract_one(&ExtractorSpec::QueryText { key: bv("name") }, &caps, &query, &body);
    match query_hit.unwrap() {
        Value::Text(t) => assert_eq!(t, bv("alice")),
        _ => panic!("expected a text value"),
    }

    let form_hit = extract_one(
        &ExtractorSpec::FormText { key: bv("username"), limit: 1000 },
        &caps,
        &query,
        &body,
    );
    match form_hit.unwrap() {
        Value::Text(t) => assert_eq!(t, bv("sam")),
        _ => panic!("expected a text value"),
    }
}

#[test]
fn first_failing_extractor_wins() {
    let caps = vec![(bv("name"), bv("ok")), (bv("id"), bv("not-a-number"))];
    let query = Vec::new();
    let body = bv("0123456789X");
    let extractors = vec![
        ExtractorSpec::PathText { name: bv("name") },
        ExtractorSpec::PathU32 { name: bv("id") },
        ExtractorSpec::RawBody { limit: 10 },
    ];
    let err = run_extractors(&extractors, &caps, &query, &body).unwrap_err();
    assert_eq!(err.kind, ErrorKind::TypeMismatch);
    assert_eq!(err.field, bv("id"));
}

#[test]
fn typed_struct_binding() {
    let caps = vec![(bv("id"), bv("7")), (bv("username"), bv("sam"))];
    let ex = Extractors::from_captures(&caps).unwrap();
    assert_eq!(ex.id, 7);
    assert_eq!(ex.username, bv("sam"));

    let bad = vec![(bv("id"), bv("x7")), (bv("username"), bv("sam"))];
    assert_eq!(Extractors::from_captures(&bad).unwrap_err().kind, ErrorKind::TypeMismatch);

    let caps2 = vec![(bv("post_id"), bv("12")), (bv("friend"), bv("maria"))];
    let p = PostInfo::from_captures(&caps2).unwrap();
    assert_eq!(p.post_id, 12);
    assert_eq!(p.friend, bv("maria"));
    let missing = vec![(bv("post_id"), bv("12"))];
    assert_eq!(PostInfo::from_captures(&missing).unwrap_err().kind, ErrorKind::MissingField);
}

#[test]
fn json_rendering_and_escaping() {
    let obj = JsonObject {
        fields: vec![(bv("name"), JsonScalar::Str(bv("ada")))],
    };
    assert_eq!(render_object(&obj), bv("{\"name\":\"ada\"}"));

    let tricky = JsonObject {
        fields: vec![
            (bv("q"), JsonScalar::Str(bv("say \"hi\"\n"))),
            (bv("n"), JsonScalar::Int(-3)),
            (bv("b"), JsonScalar::Bool(true)),
            (bv("z"), JsonScalar::Null),
        ],
    };
    assert_eq!(
        render_object(&tricky),
        bv("{\"q\":\"say \\\"hi\\\"\\n\",\"n\":-3,\"b\":true,\"z\":null}")
    );
}

#[test]
fn stream_round_trip_three_chunks() {
    let body = StreamBody::Chunks(ChunkCursor {
        chunks: vec![bv("a"), bv("b"), bv("c")],
        pos: 0,
        fail_after: None,
    });
    let mut w = ResponseWriter::new();
    run_stream(body, &mut w);
    assert_eq!(w.flushes.len(), 3);
    assert_eq!(w.flushes, vec![bv("a"), bv("b"), bv("c")]);
    assert_eq!(concat(&w.flushes), bv("abc"));
    assert!(!w.closed);
}

#[test]
fn stream_failure_closes_without_trailing_marker() {
    let spec = ResponseSpec {
        status: 200,
        headers: Vec::new(),
        body: BodyKind::Stream(StreamBody::Chunks(ChunkCursor {
            chunks: vec![bv("a"), bv("b"), bv("c")],
            pos: 0,
            fail_after: Some(1),
        })),
    };
    let res = build_response(spec);
    assert_eq!(res.flushes, vec![bv("a")]);
    assert!(!res.completed);
}

#[test]
fn countdown_stream_is_lazy_and_ordered() {
    let mut s = StreamBody::Countdown(CountdownCursor { current: 2 });
    match stream_next(&mut s) {
        StreamStep::Chunk(c) => assert_eq!(c, bv("data: 2\n\n")),
        _ => panic!("expected a chunk"),
    }
    match stream_next(&mut s) {
        StreamStep::Chunk(c) => assert_eq!(c, bv("data: 1\n\n")),
        _ => panic!("expected a chunk"),
    }
    match stream_next(&mut s) {
        StreamStep::Done => {}
        _ => panic!("expected completion"),
    }
}

#[test]
fn closed_writer_stops_the_producer() {
    let mut s = StreamBody::Chunks(ChunkCursor {
        chunks: vec![bv("a"), bv("b")],
        pos: 0,
        fail_after: None,
    });
    let mut w = ResponseWriter::new();
    let done = pump_stream(&mut s, &mut w);
    assert!(!done);
    assert_eq!(w.flushes, vec![bv("a")]);
    w.close();
    assert!(pump_stream(&mut s, &mut w));
    assert_eq!(w.flushes, vec![bv("a")]);
}

#[test]
fn json_body_sets_content_type() {
    let spec = ResponseSpec {
        status: 200,
        headers: Vec::new(),
        body: BodyKind::Json(JsonObject { fields: vec![(bv("counter"), JsonScalar::Int(4))] }),
    };
    let res = build_response(spec);
    assert_eq!(res.headers, vec![(bv("content-type"), bv("application/json"))]);
    assert_eq!(concat(&res.flushes), bv("{\"counter\":4}"));
}

#[test]
fn url_generation_for_named_and_external_resources() {
    let mut registry = NamedUrlRegistry::new();
    registry.register(
        bv("youtube"),
        UrlTemplate {
            pieces: vec![
                UrlPiece::Lit(bv("https://youtube.com/watch/")),
                UrlPiece::Param(bv("video_id")),
            ],
        },
    );
    registry.register(
        bv("foo"),
        UrlTemplate {
            pieces: vec![
                UrlPiece::Lit(bv("/generate-resource-urls/")),
                UrlPiece::Param(bv("a")),
                UrlPiece::Lit(bv("/")),
                UrlPiece::Param(bv("b")),
                UrlPiece::Lit(bv("/")),
                UrlPiece::Param(bv("c")),
            ],
        },
    );
    let url = registry.generate_url(b"youtube", &vec![bv("oHg5SJYRHA0")]).unwrap();
    assert_eq!(url, bv("https://youtube.com/watch/oHg5SJYRHA0"));
    let foo = registry
        .generate_url(b"foo", &vec![bv("1"), bv("2"), bv("3")])
        .unwrap();
    assert_eq!(foo, bv("/generate-resource-urls/1/2/3"));
    assert_eq!(registry.generate_url(b"foo", &vec![bv("1")]), None);
    assert_eq!(registry.generate_url(b"unknown", &vec![]), None);
}

#[test]
fn named_routes_regenerate_their_urls() {
    let user_detail = RouteTemplate {
        segments: vec![Segment::Literal(bv("show")), Segment::Param(bv("id"))],
        methods: vec![Method::Get],
        guards: Vec::new(),
        name: Some(bv("user_detail")),
        handler: 0,
    };
    let mut registry = NamedUrlRegistry::new();
    registry.register_route(&user_detail);
    assert_eq!(
        registry.generate_url(b"user_detail", &vec![bv("5")]).unwrap(),
        bv("/show/5")
    );

    let foo = RouteTemplate {
        segments: vec![
            Segment::Literal(bv("generate-resource-urls")),
            Segment::Param(bv("a")),
            Segment::Param(bv("b")),
            Segment::Param(bv("c")),
        ],
        methods: vec![Method::Get],
        guards: Vec::new(),
        name: Some(bv("foo")),
        handler: 0,
    };
    registry.register_route(&foo);
    assert_eq!(
        registry
            .generate_url(b"foo", &vec![bv("1"), bv("2"), bv("3")])
            .unwrap(),
        bv("/generate-resource-urls/1/2/3")
    );

    let nameless = RouteTemplate {
        segments: vec![Segment::Literal(bv("plain"))],
        methods: vec![Method::Get],
        guards: Vec::new(),
        name: None,
        handler: 0,
    };
    registry.register_route(&nameless);
    assert_eq!(registry.entries.len(), 2);

    let direct = route_url_template(&user_detail.segments);
    assert_eq!(direct.pieces.len(), 3);
}

#[test]
fn counters_never_lose_an_update() {
    let mut app = AppStateWithCounter::new(bv("Demo App"));
    let greeting = app.index();
    assert_eq!(greeting, bv("Hello Demo App, Request number: 1"));
    let greeting2 = app.index();
    assert_eq!(greeting2, bv("Hello Demo App, Request number: 2"));
    assert_eq!(app.counter, 2);

    let mut s = StateStruct::new();
    assert_eq!(s.show_count(), bv("count: 0"));
    assert_eq!(s.add_one(), bv("Count: 1"));
    assert_eq!(s.add_one(), bv("Count: 2"));
    assert_eq!(s.global_count, 2);

    let a = AppState { counter: 3 };
    assert_eq!(a.next().counter, 4);
}

#[test]
fn configuration_keeps_at_least_one_worker() {
    let c = route_engine::config::ServerConfig::new(
        0,
        route_engine::config::KeepAlive::Seconds(75),
        4096,
        Some(30_000),
    );
    assert_eq!(c.workers, 1);
    assert_eq!(c.keep_alive, route_engine::config::KeepAlive::Seconds(75));
    assert_eq!(c.body_limit, 4096);
    assert_eq!(c.request_deadline_ms, Some(30_000));
    let c2 = route_engine::config::ServerConfig::new(
        4,
        route_engine::config::KeepAlive::Disabled,
        1024,
        None,
    );
    assert_eq!(c2.workers, 4);
}

#[test]
fn state_machine_walks_the_documented_phases() {
    let p = advance(Phase::Received, DispatchEvent::Begin);
    assert!(matches!(p, Phase::Matching));
    let p = advance(p, DispatchEvent::RouteFound);
    assert!(matches!(p, Phase::Extracting));
    let p = advance(p, DispatchEvent::InputsBound);
    assert!(matches!(p, Phase::Handling));
    let p = advance(p, DispatchEvent::HandlerSucceeded);
    assert!(matches!(p, Phase::Responding));
    let p = advance(p, DispatchEvent::ResponseSent);
    assert!(matches!(p, Phase::Done));

    let failed = advance(Phase::Matching, DispatchEvent::RouteMissing { method_mismatch: false });
    assert!(matches!(failed, Phase::Failed(FailureKind::NotFound)));
    let done = advance(failed, DispatchEvent::FailureTranslated);
    assert!(matches!(done, Phase::Done));

    let stuck = advance(Phase::Done, DispatchEvent::Begin);
    assert!(matches!(stuck, Phase::Done));
}
