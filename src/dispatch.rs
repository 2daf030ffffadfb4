use vstd::prelude::*;
use crate::assoc::pairs_view;
use crate::matcher::{first_match_from, path_known, Handler, MatchOutcome, ParamBinding, RouteTable};
use crate::pattern::{path_segments, Method};
use crate::render::{render_template, rendered};
use crate::assoc::lookup;
use crate::store::{lemma_put_then_get, put_entries, stage_put, KvError, StagedPut};

verus! {

/// Status for a store binding or variable that cannot be resolved.
pub const BINDING_MISSING_STATUS: u16 = 204;

/// Name of the store binding the key-value routes use.
pub const STORE_BINDING: &'static str = "KV_FROM_RUST";

/// Name of the variable the version route reports.
pub const VERSION_VAR: &'static str = "WORKERS_RS_VERSION";

/// Template rendered by the template route.
pub const PAGE_TEMPLATE: &'static str = "Hello {{name}}";

/// A status code and a text body.
#[derive(Debug)]
pub struct Response {
    pub status: u16,
    pub body: String,
}

/// What a handler ended with.
#[derive(Debug)]
pub enum Outcome {
    Success(String),
    /// A declared error, with the status the handler chose.
    Rejected(u16, String),
    /// A failure of the store or transport.
    Failure(String),
}

/// Maps a handler's outcome to a response.
pub fn build_response(o: Outcome) -> (r: Response)
    ensures
        match o {
            Outcome::Success(t) => r.status == 200 && r.body@ == t@,
            Outcome::Rejected(s, t) => r.status == s && r.body@ == t@,
            Outcome::Failure(t) => r.status == 500 && r.body@ == t@,
        },
{
    match o {
        Outcome::Success(t) => Response { status: 200, body: t },
        Outcome::Rejected(s, t) => Response { status: s, body: t },
        Outcome::Failure(t) => Response { status: 500, body: t },
    }
}

/// The data the template route renders with.
pub open spec fn page_data() -> Seq<(Seq<char>, Seq<char>)> {
    seq![("name"@, "foo"@)]
}

/// The response for a render result: the text, or a 400.
pub open spec fn page_result(t: Option<Seq<char>>) -> ActionView {
    match t {
        Some(s) => ActionView::Respond(200, s),
        None => ActionView::Respond(400, "render_template error"@),
    }
}

/// The response of the template route for what rendering gave.
pub fn template_response(t: Option<String>) -> (r: Response)
    ensures
        ActionView::Respond(r.status, r.body@) == page_result(
            match t {
                Some(s) => Some(s@),
                None => None,
            },
        ),
{
    match t {
        Some(s) => build_response(Outcome::Success(s)),
        None => build_response(Outcome::Rejected(400, String::from_str("render_template error"))),
    }
}

/// Renders the template route's page.
pub fn template_page() -> (r: Response)
    ensures
        ActionView::Respond(r.status, r.body@) == page_result(rendered(PAGE_TEMPLATE@, page_data())),
{
    let mut data: Vec<(String, String)> = Vec::new();
    data.push((String::from_str("name"), String::from_str("foo")));
    assert(pairs_view(data@) =~= page_data());
    template_response(render_template(PAGE_TEMPLATE, &data))
}

/// Where a request's handler stands.
#[derive(Clone, Copy, Debug, PartialEq, Eq, Structural)]
pub enum Phase {
    Start,
    AwaitStore,
    AwaitValue,
    AwaitBody,
    AwaitWrite,
    AwaitVar,
    Done,
}

/// What the host reports back to a handler.
#[derive(Debug)]
pub enum Event {
    Begin,
    /// The store binding was resolved, or the error text of why not.
    StoreResolved(Result<(), String>),
    Fetched(Result<Option<String>, KvError>),
    /// The request body, `None` if it could not be read.
    Body(Option<String>),
    Written(Result<(), KvError>),
    /// The configured variable, or the error text of why it is missing.
    Var(Result<String, String>),
}

/// What a handler asks the host to do next.
#[derive(Debug)]
pub enum Action {
    Respond(Response),
    ResolveStore,
    Get(String),
    ReadBody,
    Put(StagedPut),
    ReadVar,
}

pub enum EventView {
    Begin,
    StoreResolved(Result<(), Seq<char>>),
    Fetched(Result<Option<Seq<char>>, KvError>),
    Body(Option<Seq<char>>),
    Written(Result<(), KvError>),
    Var(Result<Seq<char>, Seq<char>>),
}

pub enum ActionView {
    Respond(u16, Seq<char>),
    ResolveStore,
    Get(Seq<char>),
    ReadBody,
    Put(Seq<char>, Seq<char>),
    ReadVar,
}

pub open spec fn opt_view(o: Option<String>) -> Option<Seq<char>> {
    match o {
        Some(s) => Some(s@),
        None => None,
    }
}

impl View for Event {
    type V = EventView;

    open spec fn view(&self) -> EventView {
        match self {
            Event::Begin => EventView::Begin,
            Event::StoreResolved(Ok(())) => EventView::StoreResolved(Ok(())),
            Event::StoreResolved(Err(m)) => EventView::StoreResolved(Err(m@)),
            Event::Fetched(Ok(v)) => EventView::Fetched(Ok(opt_view(*v))),
            Event::Fetched(Err(e)) => EventView::Fetched(Err(*e)),
            Event::Body(b) => EventView::Body(opt_view(*b)),
            Event::Written(w) => EventView::Written(*w),
            Event::Var(Ok(v)) => EventView::Var(Ok(v@)),
            Event::Var(Err(m)) => EventView::Var(Err(m@)),
        }
    }
}

impl View for Action {
    type V = ActionView;

    open spec fn view(&self) -> ActionView {
        match self {
            Action::Respond(r) => ActionView::Respond(r.status, r.body@),
            Action::ResolveStore => ActionView::ResolveStore,
            Action::Get(k) => ActionView::Get(k@),
            Action::ReadBody => ActionView::ReadBody,
            Action::Put(p) => ActionView::Put(p.key_view(), p.value_view()),
            Action::ReadVar => ActionView::ReadVar,
        }
    }
}

/// Ends the request with a response.
pub open spec fn respond(status: u16, body: Seq<char>) -> (Phase, ActionView) {
    (Phase::Done, ActionView::Respond(status, body))
}

/// The answer to an event that does not fit the phase.
pub open spec fn unexpected() -> (Phase, ActionView) {
    respond(500, "unexpected event"@)
}

/// The next phase and action of a handler, given its parameter and what the host reported.
pub open spec fn step_spec(h: Handler, name: Option<Seq<char>>, phase: Phase, ev: EventView) -> (
    Phase,
    ActionView,
) {
    match (phase, ev) {
        (Phase::Start, EventView::Begin) => match h {
            Handler::Greeting => respond(200, "Hello from Workers!"@),
            Handler::KvGet | Handler::KvPut => if name is None {
                respond(400, "no name defined"@)
            } else {
                (Phase::AwaitStore, ActionView::ResolveStore)
            },
            Handler::Template => (Phase::Done, page_result(rendered(PAGE_TEMPLATE@, page_data()))),
            Handler::Version => (Phase::AwaitVar, ActionView::ReadVar),
        },
        (Phase::AwaitStore, EventView::StoreResolved(Err(m))) => respond(BINDING_MISSING_STATUS, m),
        (Phase::AwaitStore, EventView::StoreResolved(Ok(()))) => match name {
            Some(n) => if h == Handler::KvGet {
                (Phase::AwaitValue, ActionView::Get(n))
            } else {
                (Phase::AwaitBody, ActionView::ReadBody)
            },
            None => unexpected(),
        },
        (Phase::AwaitValue, EventView::Fetched(Ok(Some(v)))) => respond(200, v),
        (Phase::AwaitValue, EventView::Fetched(Ok(None))) => respond(404, "not found"@),
        (Phase::AwaitValue, EventView::Fetched(Err(_))) => respond(500, "store.get(name) err"@),
        (Phase::AwaitBody, EventView::Body(Some(b))) => match name {
            Some(n) => (Phase::AwaitWrite, ActionView::Put(n, b)),
            None => unexpected(),
        },
        (Phase::AwaitBody, EventView::Body(None)) => respond(400, "body parse error"@),
        (Phase::AwaitWrite, EventView::Written(Ok(()))) => respond(200, "success"@),
        (Phase::AwaitWrite, EventView::Written(Err(_))) => respond(500, "storage error"@),
        (Phase::AwaitVar, EventView::Var(Ok(v))) => respond(200, v),
        (Phase::AwaitVar, EventView::Var(Err(m))) => respond(BINDING_MISSING_STATUS, m),
        _ => unexpected(),
    }
}

/// One request's handler, driven by the host one event at a time.
#[derive(Debug)]
pub struct Session {
    pub handler: Handler,
    pub name: Option<String>,
    pub phase: Phase,
}

impl Session {
    /// A bound name is never empty.
    pub open spec fn wf(&self) -> bool {
        self.name matches Some(n) ==> n@.len() > 0
    }

    /// Starts a session for a matched route; an empty `name` parameter counts as absent.
    pub fn new(handler: Handler, binding: &ParamBinding) -> (r: Session)
        ensures
            r.wf(),
            r.handler == handler,
            r.phase == Phase::Start,
            opt_view(r.name) == name_of(pairs_view(binding.pairs@)),
    {
        let name = match binding.param("name") {
            Some(v) => if v.as_str().unicode_len() > 0 {
                Some(v)
            } else {
                None
            },
            None => None,
        };
        Session { handler, name, phase: Phase::Start }
    }

    /// Takes the next event and says what to do.
    pub fn step(&mut self, ev: Event) -> (r: Action)
        requires
            old(self).wf(),
        ensures
            final(self).wf(),
            final(self).handler == old(self).handler,
            opt_view(final(self).name) == opt_view(old(self).name),
            (final(self).phase, r@) == step_spec(
                old(self).handler,
                opt_view(old(self).name),
                old(self).phase,
                ev@,
            ),
    {
        let (phase, action) = match (self.phase, ev) {
            (Phase::Start, Event::Begin) => match self.handler {
                Handler::Greeting => (
                    Phase::Done,
                    Action::Respond(
                        build_response(Outcome::Success(String::from_str("Hello from Workers!"))),
                    ),
                ),
                Handler::KvGet | Handler::KvPut => if self.name.is_none() {
                    (
                        Phase::Done,
                        Action::Respond(
                            build_response(
                                Outcome::Rejected(400, String::from_str("no name defined")),
                            ),
                        ),
                    )
                } else {
                    (Phase::AwaitStore, Action::ResolveStore)
                },
                Handler::Template => (Phase::Done, Action::Respond(template_page())),
                Handler::Version => (Phase::AwaitVar, Action::ReadVar),
            },
            (Phase::AwaitStore, Event::StoreResolved(Err(m))) => (
                Phase::Done,
                Action::Respond(build_response(Outcome::Rejected(BINDING_MISSING_STATUS, m))),
            ),
            (Phase::AwaitStore, Event::StoreResolved(Ok(()))) => match &self.name {
                Some(n) => if self.handler == Handler::KvGet {
                    (Phase::AwaitValue, Action::Get(n.clone()))
                } else {
                    (Phase::AwaitBody, Action::ReadBody)
                },
                None => unexpected_event(),
            },
            (Phase::AwaitValue, Event::Fetched(Ok(Some(v)))) => (
                Phase::Done,
                Action::Respond(build_response(Outcome::Success(v))),
            ),
            (Phase::AwaitValue, Event::Fetched(Ok(None))) => (
                Phase::Done,
                Action::Respond(
                    build_response(Outcome::Rejected(404, String::from_str("not found"))),
                ),
            ),
            (Phase::AwaitValue, Event::Fetched(Err(_))) => (
                Phase::Done,
                Action::Respond(
                    build_response(Outcome::Failure(String::from_str("store.get(name) err"))),
                ),
            ),
            (Phase::AwaitBody, Event::Body(Some(b))) => match &self.name {
                Some(n) => match stage_put(n.as_str(), b.as_str()) {
                    Ok(p) => (Phase::AwaitWrite, Action::Put(p)),
                    Err(_) => (
                        Phase::Done,
                        Action::Respond(
                            build_response(Outcome::Failure(String::from_str("storage error"))),
                        ),
                    ),
                },
                None => unexpected_event(),
            },
            (Phase::AwaitBody, Event::Body(None)) => (
                Phase::Done,
                Action::Respond(
                    build_response(Outcome::Rejected(400, String::from_str("body parse error"))),
                ),
            ),
            (Phase::AwaitWrite, Event::Written(Ok(()))) => (
                Phase::Done,
                Action::Respond(build_response(Outcome::Success(String::from_str("success")))),
            ),
            (Phase::AwaitWrite, Event::Written(Err(_))) => (
                Phase::Done,
                Action::Respond(
                    build_response(Outcome::Failure(String::from_str("storage error"))),
                ),
            ),
            (Phase::AwaitVar, Event::Var(Ok(v))) => (
                Phase::Done,
                Action::Respond(build_response(Outcome::Success(v))),
            ),
            (Phase::AwaitVar, Event::Var(Err(m))) => (
                Phase::Done,
                Action::Respond(build_response(Outcome::Rejected(BINDING_MISSING_STATUS, m))),
            ),
            _ => unexpected_event(),
        };
        self.phase = phase;
        action
    }
}

/// The parameter value a session keeps: the bound `name`, unless it is empty.
pub open spec fn name_of(b: Seq<(Seq<char>, Seq<char>)>) -> Option<Seq<char>> {
    let l = lookup(b, "name"@);
    if l matches Some(v) && v.len() > 0 {
        l
    } else {
        None
    }
}

/// Resolves a request to a session for its route, or to the answer when no route takes it:
/// 405 when the path is registered for another method only, else 404.
pub fn open_session(table: &RouteTable, method: Method, path: &str) -> (r: Result<Session, Response>)
    ensures
        match first_match_from(table.routes@, method, path_segments(path@), 0) {
            Some((k, b)) => r matches Ok(s) && s.wf() && s.handler == table.routes@[k].handler
                && s.phase == Phase::Start && opt_view(s.name) == name_of(b),
            None => r matches Err(resp) && resp.status == (if path_known(
                table.routes@,
                path_segments(path@),
            ) {
                405u16
            } else {
                404u16
            }),
        },
{
    match table.find(method, path) {
        MatchOutcome::Found(h, b) => Ok(Session::new(h, &b)),
        MatchOutcome::MethodNotAllowed => Err(
            build_response(Outcome::Rejected(405, String::from_str("method not allowed"))),
        ),
        MatchOutcome::NotFound => Err(
            build_response(Outcome::Rejected(404, String::from_str("not found"))),
        ),
    }
}

/// A key-value route without a name answers 400 on its first step, before any store action.
pub proof fn lemma_missing_name_answers_first(h: Handler)
    requires
        h == Handler::KvGet || h == Handler::KvPut,
    ensures
        step_spec(h, None, Phase::Start, EventView::Begin) == respond(400, "no name defined"@),
{
}

/// A read or a write with a name first asks for the store binding, before anything is read or
/// written; if the binding cannot be resolved, the request ends with the binding-missing status
/// and the resolver's error text, the same for reads and writes.
pub proof fn lemma_binding_missing(h: Handler, n: Seq<char>, m: Seq<char>)
    requires
        h == Handler::KvGet || h == Handler::KvPut,
    ensures
        step_spec(h, Some(n), Phase::Start, EventView::Begin) == (
            Phase::AwaitStore,
            ActionView::ResolveStore,
        ),
        step_spec(h, Some(n), Phase::AwaitStore, EventView::StoreResolved(Err(m))) == respond(
            BINDING_MISSING_STATUS,
            m,
        ),
{
}

/// Reading a key that no write has stored answers 404.
pub proof fn lemma_unwritten_key_not_found(e: Seq<(Seq<char>, Seq<char>)>, n: Seq<char>)
    requires
        lookup(e, n) is None,
    ensures
        step_spec(
            Handler::KvGet,
            Some(n),
            Phase::AwaitValue,
            EventView::Fetched(Ok(lookup(e, n))),
        ) == respond(404, "not found"@),
{
}

/// A body written under a name is what a later read of that name answers.
pub proof fn lemma_kv_round_trip(e: Seq<(Seq<char>, Seq<char>)>, n: Seq<char>, b: Seq<char>)
    ensures
        step_spec(Handler::KvPut, Some(n), Phase::AwaitBody, EventView::Body(Some(b))) == (
            Phase::AwaitWrite,
            ActionView::Put(n, b),
        ),
        step_spec(
            Handler::KvGet,
            Some(n),
            Phase::AwaitValue,
            EventView::Fetched(Ok(lookup(put_entries(e, n, b), n))),
        ) == respond(200, b),
{
    lemma_put_then_get(e, n, b);
}

fn unexpected_event() -> (r: (Phase, Action))
    ensures
        (r.0, r.1@) == unexpected(),
{
    (
        Phase::Done,
        Action::Respond(build_response(Outcome::Failure(String::from_str("unexpected event")))),
    )
}

} // verus!
