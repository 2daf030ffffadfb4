use edge_router::{
    compile, join_from, path_segments_exec, Handler, MatchOutcome, Method, PatternError, RouteTable, Segment,
};

fn lit(s: &str) -> String {
    s.to_string()
}

#[test]
fn compile_splits_literals_and_params() {
    let p = compile(Method::Get, "/kv/:name").unwrap();
    assert_eq!(p.method, Method::Get);
    assert_eq!(p.segments.len(), 2);
    assert!(matches!(&p.segments[0], Segment::Literal(t) if *t == lit("kv")));
    assert!(matches!(&p.segments[1], Segment::Param(n) if *n == lit("name")));
}

#[test]
fn compile_accepts_final_wildcard() {
    let p = compile(Method::Get, "/files/*rest").unwrap();
    assert!(matches!(&p.segments[1], Segment::Wildcard(n) if *n == lit("rest")));
}

#[test]
fn compile_rejects_second_wildcard() {
    assert_eq!(compile(Method::Get, "/files/*a/*b").unwrap_err(), PatternError::InvalidPattern);
}

#[test]
fn compile_rejects_non_terminal_wildcard() {
    assert_eq!(compile(Method::Get, "/files/*rest/x").unwrap_err(), PatternError::InvalidPattern);
}

#[test]
fn compile_rejects_empty_names() {
    assert_eq!(compile(Method::Get, "/kv/:").unwrap_err(), PatternError::InvalidPattern);
    assert_eq!(compile(Method::Get, "/files/*").unwrap_err(), PatternError::InvalidPattern);
}

#[test]
fn duplicate_route_is_refused() {
    let mut t = RouteTable::new();
    assert!(t.add(Method::Get, "/kv/:name", Handler::KvGet).is_ok());
    assert_eq!(t.add(Method::Get, "/kv/:name", Handler::KvPut), Err(PatternError::DuplicateRoute));
    assert!(t.add(Method::Post, "/kv/:name", Handler::KvPut).is_ok());
    assert_eq!(t.routes.len(), 2);
}

#[test]
fn invalid_route_leaves_table_unchanged() {
    let mut t = RouteTable::new();
    assert_eq!(t.add(Method::Get, "/*a/b", Handler::KvGet), Err(PatternError::InvalidPattern));
    assert_eq!(t.routes.len(), 0);
}

#[test]
fn wildcard_binds_the_rest_of_the_path() {
    let mut t = RouteTable::new();
    t.add(Method::Get, "/files/*rest", Handler::Template).unwrap();
    match t.find(Method::Get, "/files/a/b/c") {
        MatchOutcome::Found(h, b) => {
            assert_eq!(h, Handler::Template);
            assert_eq!(b.param("rest"), Some(lit("a/b/c")));
        }
        other => panic!("unexpected {:?}", other),
    }
}

#[test]
fn wildcard_matches_an_empty_rest() {
    let mut t = RouteTable::new();
    t.add(Method::Get, "/files/*rest", Handler::Template).unwrap();
    match t.find(Method::Get, "/files") {
        MatchOutcome::Found(_, b) => assert_eq!(b.param("rest"), Some(lit(""))),
        other => panic!("unexpected {:?}", other),
    }
}

#[test]
fn first_registered_route_wins() {
    let mut t = RouteTable::new();
    t.add(Method::Get, "/kv/:name", Handler::KvGet).unwrap();
    t.add(Method::Get, "/kv/static", Handler::Greeting).unwrap();
    match t.find(Method::Get, "/kv/static") {
        MatchOutcome::Found(h, b) => {
            assert_eq!(h, Handler::KvGet);
            assert_eq!(b.param("name"), Some(lit("static")));
        }
        other => panic!("unexpected {:?}", other),
    }
}

#[test]
fn distinct_patterns_reach_their_own_handlers() {
    let t = RouteTable::standard().unwrap();
    let cases = [
        (Method::Get, "/", Handler::Greeting),
        (Method::Get, "/kv/alpha", Handler::KvGet),
        (Method::Post, "/kv/alpha", Handler::KvPut),
        (Method::Get, "/template", Handler::Template),
        (Method::Get, "/version", Handler::Version),
    ];
    for (m, path, want) in cases {
        match t.find(m, path) {
            MatchOutcome::Found(h, _) => assert_eq!(h, want, "{}", path),
            other => panic!("unexpected {:?} for {}", other, path),
        }
    }
}

#[test]
fn literal_match_is_case_sensitive() {
    let t = RouteTable::standard().unwrap();
    assert!(matches!(t.find(Method::Get, "/Template"), MatchOutcome::NotFound));
}

#[test]
fn segment_count_mismatch_is_no_match() {
    let t = RouteTable::standard().unwrap();
    assert!(matches!(t.find(Method::Get, "/kv/a/b"), MatchOutcome::NotFound));
}

#[test]
fn other_method_on_known_path_is_method_not_allowed() {
    let t = RouteTable::standard().unwrap();
    assert!(matches!(t.find(Method::Post, "/template"), MatchOutcome::MethodNotAllowed));
    assert!(matches!(t.find(Method::Put, "/kv/alpha"), MatchOutcome::MethodNotAllowed));
}

#[test]
fn param_does_not_match_an_empty_segment() {
    let mut t = RouteTable::new();
    t.add(Method::Get, "/kv/:name", Handler::KvGet).unwrap();
    assert!(matches!(t.find(Method::Get, "/kv/"), MatchOutcome::NotFound));
}

#[test]
fn unbound_param_is_none() {
    let t = RouteTable::standard().unwrap();
    match t.find(Method::Get, "/kv/") {
        MatchOutcome::Found(h, b) => {
            assert_eq!(h, Handler::KvGet);
            assert_eq!(b.param("name"), None);
        }
        other => panic!("unexpected {:?}", other),
    }
}

#[test]
fn path_segments_and_join() {
    let segs = path_segments_exec("/files/a//b/");
    assert_eq!(segs, vec![lit("files"), lit("a"), lit(""), lit("b"), lit("")]);
    assert_eq!(join_from(&segs, 1), "a//b/");
    assert_eq!(join_from(&segs, 5), "");
    assert_eq!(path_segments_exec("/"), vec![lit("")]);
    assert_eq!(path_segments_exec("kv/x"), vec![lit("kv"), lit("x")]);
}

#[test]
fn standard_table_lists_the_service_routes() {
    let t = RouteTable::standard().unwrap();
    let want = [
        (Method::Get, Handler::Greeting, 1),
        (Method::Get, Handler::KvGet, 2),
        (Method::Get, Handler::KvGet, 2),
        (Method::Post, Handler::KvPut, 2),
        (Method::Post, Handler::KvPut, 2),
        (Method::Get, Handler::Template, 1),
        (Method::Get, Handler::Version, 1),
    ];
    assert_eq!(t.routes.len(), want.len());
    for (r, (m, h, n)) in t.routes.iter().zip(want.iter()) {
        assert_eq!(r.pattern.method, *m);
        assert_eq!(r.handler, *h);
        assert_eq!(r.pattern.segments.len(), *n);
    }
}

#[test]
fn post_kv_reaches_the_write_handler() {
    let t = RouteTable::standard().unwrap();
    match t.find(Method::Post, "/kv/alpha") {
        MatchOutcome::Found(h, b) => {
            assert_eq!(h, Handler::KvPut);
            assert_eq!(b.param("name"), Some(lit("alpha")));
        }
        other => panic!("unexpected {:?}", other),
    }
}
