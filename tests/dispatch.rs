use edge_router::{
    build_response, open_session, template_page, template_response, Action, Event, Handler,
    KvError, MemoryStore, Method, Outcome, ParamBinding, Phase, Response, RouteTable, Session,
    BINDING_MISSING_STATUS,
};

struct Host {
    store: MemoryStore,
    bound: bool,
    body: Option<String>,
    version: Result<String, String>,
    fail_fetch: bool,
    fail_write: bool,
    store_calls: usize,
}

impl Host {
    fn new() -> Host {
        Host {
            store: MemoryStore::new(),
            bound: true,
            body: None,
            version: Ok("0.0.24".to_string()),
            fail_fetch: false,
            fail_write: false,
            store_calls: 0,
        }
    }

    fn serve(&mut self, method: Method, path: &str) -> Response {
        let table = RouteTable::standard().unwrap();
        let mut session = match open_session(&table, method, path) {
            Ok(s) => s,
            Err(r) => return r,
        };
        let mut ev = Event::Begin;
        loop {
            ev = match session.step(ev) {
                Action::Respond(r) => return r,
                Action::ResolveStore => Event::StoreResolved(if self.bound {
                    Ok(())
                } else {
                    Err("binding KV_FROM_RUST not found".to_string())
                }),
                Action::Get(k) => {
                    self.store_calls += 1;
                    if self.fail_fetch {
                        Event::Fetched(Err(KvError::Store))
                    } else {
                        Event::Fetched(Ok(self.store.get(&k)))
                    }
                }
                Action::ReadBody => Event::Body(self.body.clone()),
                Action::Put(p) => {
                    self.store_calls += 1;
                    if self.fail_write {
                        Event::Written(Err(KvError::Store))
                    } else {
                        Event::Written(self.store.execute(&p))
                    }
                }
                Action::ReadVar => Event::Var(self.version.clone()),
            };
        }
    }
}

#[test]
fn greeting_route() {
    let r = Host::new().serve(Method::Get, "/");
    assert_eq!((r.status, r.body.as_str()), (200, "Hello from Workers!"));
}

#[test]
fn post_then_get_returns_the_body() {
    let mut h = Host::new();
    h.body = Some("hello".to_string());
    let w = h.serve(Method::Post, "/kv/alpha");
    assert_eq!((w.status, w.body.as_str()), (200, "success"));
    let r = h.serve(Method::Get, "/kv/alpha");
    assert_eq!((r.status, r.body.as_str()), (200, "hello"));
}

#[test]
fn missing_key_is_404() {
    let r = Host::new().serve(Method::Get, "/kv/missing");
    assert_eq!(r.status, 404);
}

#[test]
fn missing_name_is_400_without_store_calls() {
    let mut h = Host::new();
    let r = h.serve(Method::Get, "/kv/");
    assert_eq!((r.status, r.body.as_str()), (400, "no name defined"));
    h.body = Some("x".to_string());
    let w = h.serve(Method::Post, "/kv/");
    assert_eq!(w.status, 400);
    assert_eq!(h.store_calls, 0);
}

#[test]
fn missing_binding_on_get_and_put() {
    let mut h = Host::new();
    h.bound = false;
    h.body = Some("hello".to_string());
    let g = h.serve(Method::Get, "/kv/alpha");
    assert_eq!(g.status, BINDING_MISSING_STATUS);
    assert_eq!(g.body, "binding KV_FROM_RUST not found");
    let p = h.serve(Method::Post, "/kv/alpha");
    assert_eq!(p.status, BINDING_MISSING_STATUS);
    assert_eq!(h.store_calls, 0);
    assert!(h.store.list().is_empty());
}

#[test]
fn unreadable_body_is_400() {
    let mut h = Host::new();
    h.body = None;
    let r = h.serve(Method::Post, "/kv/alpha");
    assert_eq!((r.status, r.body.as_str()), (400, "body parse error"));
    assert_eq!(h.store_calls, 0);
}

#[test]
fn store_failures_are_500() {
    let mut h = Host::new();
    h.fail_fetch = true;
    h.fail_write = true;
    h.body = Some("v".to_string());
    let g = h.serve(Method::Get, "/kv/alpha");
    assert_eq!((g.status, g.body.as_str()), (500, "store.get(name) err"));
    let p = h.serve(Method::Post, "/kv/alpha");
    assert_eq!((p.status, p.body.as_str()), (500, "storage error"));
}

#[test]
fn version_route() {
    let mut h = Host::new();
    let r = h.serve(Method::Get, "/version");
    assert_eq!((r.status, r.body.as_str()), (200, "0.0.24"));
    h.version = Err("variable not found".to_string());
    let e = h.serve(Method::Get, "/version");
    assert_eq!((e.status, e.body.as_str()), (BINDING_MISSING_STATUS, "variable not found"));
}

#[test]
fn template_route_renders_the_name() {
    let r = Host::new().serve(Method::Get, "/template");
    assert_eq!((r.status, r.body.as_str()), (200, "Hello foo"));
    let p = template_page();
    assert_eq!(p.body, "Hello foo");
}

#[test]
fn template_response_maps_both_outcomes() {
    let ok = template_response(Some("Hi".to_string()));
    assert_eq!((ok.status, ok.body.as_str()), (200, "Hi"));
    let err = template_response(None);
    assert_eq!((err.status, err.body.as_str()), (400, "render_template error"));
}

#[test]
fn unknown_path_and_method() {
    let mut h = Host::new();
    assert_eq!(h.serve(Method::Get, "/nowhere").status, 404);
    assert_eq!(h.serve(Method::Delete, "/version").status, 405);
}

#[test]
fn response_builder_table() {
    let a = build_response(Outcome::Success("ok".to_string()));
    assert_eq!((a.status, a.body.as_str()), (200, "ok"));
    let b = build_response(Outcome::Rejected(404, "gone".to_string()));
    assert_eq!((b.status, b.body.as_str()), (404, "gone"));
    let c = build_response(Outcome::Failure("down".to_string()));
    assert_eq!((c.status, c.body.as_str()), (500, "down"));
}

#[test]
fn event_out_of_turn_is_500() {
    let binding = ParamBinding { pairs: vec![("name".to_string(), "k".to_string())] };
    let mut s = Session::new(Handler::KvGet, &binding);
    match s.step(Event::Written(Ok(()))) {
        Action::Respond(r) => assert_eq!((r.status, r.body.as_str()), (500, "unexpected event")),
        other => panic!("unexpected {:?}", other),
    }
    assert_eq!(s.phase, Phase::Done);
}

#[test]
fn empty_name_counts_as_missing() {
    let binding = ParamBinding { pairs: vec![("name".to_string(), String::new())] };
    let s = Session::new(Handler::KvPut, &binding);
    assert_eq!(s.name, None);
}
