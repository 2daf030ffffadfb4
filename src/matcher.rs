use vstd::prelude::*;
use crate::assoc::{find_key, lookup, pairs_view, strings_view};
use crate::pattern::{
    compile, join_from, join_with_slash, lemma_path_one, lemma_path_two, path_segments,
    path_segments_exec, segment_of, segments_view, template_segments, well_formed_segments, Method,
    PatternError, RoutePattern, Segment, SegmentView,
};

verus! {

/// The behaviour bound to a route.
#[derive(Clone, Copy, Debug, PartialEq, Eq, Structural)]
pub enum Handler {
    Greeting,
    KvGet,
    KvPut,
    Template,
    Version,
}

/// A compiled pattern with the handler it leads to.
#[derive(Debug)]
pub struct Route {
    pub pattern: RoutePattern,
    pub handler: Handler,
}

/// Routes in the order they were registered.
#[derive(Debug)]
pub struct RouteTable {
    pub routes: Vec<Route>,
}

/// The parameters a match bound, name to matched text, in pattern order.
#[derive(Debug)]
pub struct ParamBinding {
    pub pairs: Vec<(String, String)>,
}

/// The result of matching a request against a table.
#[derive(Debug)]
pub enum MatchOutcome {
    Found(Handler, ParamBinding),
    /// No route matched, but one for another method matches the path.
    MethodNotAllowed,
    NotFound,
}

/// Walks a pattern against path segments from position `i`, collecting the bindings.
pub open spec fn bind_from(pat: Seq<SegmentView>, path: Seq<Seq<char>>, i: int) -> Option<
    Seq<(Seq<char>, Seq<char>)>,
>
    decreases pat.len() - i,
{
    if i < 0 || i > path.len() {
        None
    } else if i >= pat.len() {
        if i == path.len() {
            Some(Seq::empty())
        } else {
            None
        }
    } else {
        match pat[i] {
            SegmentView::Literal(t) => if i < path.len() && path[i] == t {
                bind_from(pat, path, i + 1)
            } else {
                None
            },
            SegmentView::Param(n) => if i < path.len() && path[i].len() > 0 {
                match bind_from(pat, path, i + 1) {
                    Some(b) => Some(seq![(n, path[i])] + b),
                    None => None,
                }
            } else {
                None
            },
            SegmentView::Wildcard(n) => Some(
                seq![(n, join_with_slash(path.subrange(i, path.len() as int)))],
            ),
        }
    }
}

/// The bindings of a route's pattern against path segments, whatever the method.
pub open spec fn route_path_binds(r: Route, path: Seq<Seq<char>>) -> Option<
    Seq<(Seq<char>, Seq<char>)>,
> {
    bind_from(segments_view(r.pattern.segments@), path, 0)
}

/// The bindings of a route against a request, if the method and path match.
pub open spec fn route_binds(r: Route, m: Method, path: Seq<Seq<char>>) -> Option<
    Seq<(Seq<char>, Seq<char>)>,
> {
    if r.pattern.method == m {
        route_path_binds(r, path)
    } else {
        None
    }
}

/// The first route from `k` on that matches, with its bindings.
pub open spec fn first_match_from(routes: Seq<Route>, m: Method, path: Seq<Seq<char>>, k: int) -> Option<
    (int, Seq<(Seq<char>, Seq<char>)>),
>
    decreases routes.len() - k,
{
    if k < 0 || k >= routes.len() {
        None
    } else {
        match route_binds(routes[k], m, path) {
            Some(b) => Some((k, b)),
            None => first_match_from(routes, m, path, k + 1),
        }
    }
}

/// Some route, of any method, matches the path.
pub open spec fn path_known(routes: Seq<Route>, path: Seq<Seq<char>>) -> bool {
    exists|j: int| 0 <= j < routes.len() && (#[trigger] route_path_binds(routes[j], path)) is Some
}

/// Two routes with the same method and the same segments.
pub open spec fn same_route(a: Route, b: Route) -> bool {
    a.pattern.method == b.pattern.method && segments_view(a.pattern.segments@) == segments_view(
        b.pattern.segments@,
    )
}

/// The routes of a table: every pattern well formed, no method and path twice.
pub open spec fn routes_wf(routes: Seq<Route>) -> bool {
    &&& forall|i: int|
        0 <= i < routes.len() ==> well_formed_segments(
            segments_view(#[trigger] routes[i].pattern.segments@),
        )
    &&& forall|i: int, j: int|
        0 <= i < j < routes.len() ==> !same_route(#[trigger] routes[i], #[trigger] routes[j])
}

/// A route registered for `m` with template `t`, leading to `h`.
pub open spec fn route_is(r: Route, m: Method, t: Seq<char>, h: Handler) -> bool {
    &&& r.pattern.method == m
    &&& segments_view(r.pattern.segments@) == template_segments(t)
    &&& r.handler == h
}

/// The segments of the templates of the service's own routes.
proof fn lemma_standard_templates()
    ensures
        template_segments("/"@) == seq![SegmentView::Literal(Seq::<char>::empty())],
        template_segments("/kv/:name"@) == seq![
            SegmentView::Literal(seq!['k', 'v']),
            SegmentView::Param(seq!['n', 'a', 'm', 'e']),
        ],
        template_segments("/kv/"@) == seq![
            SegmentView::Literal(seq!['k', 'v']),
            SegmentView::Literal(Seq::<char>::empty()),
        ],
        template_segments("/template"@) == seq![
            SegmentView::Literal(seq!['t', 'e', 'm', 'p', 'l', 'a', 't', 'e']),
        ],
        template_segments("/version"@) == seq![
            SegmentView::Literal(seq!['v', 'e', 'r', 's', 'i', 'o', 'n']),
        ],
{
    reveal_strlit("/");
    reveal_strlit("/kv/:name");
    reveal_strlit("/kv/");
    reveal_strlit("/template");
    reveal_strlit("/version");
    let e = Seq::<char>::empty();
    let kv = seq!['k', 'v'];
    let pname = seq![':', 'n', 'a', 'm', 'e'];
    let tpl = seq!['t', 'e', 'm', 'p', 'l', 'a', 't', 'e'];
    let ver = seq!['v', 'e', 'r', 's', 'i', 'o', 'n'];
    assert("/"@ =~= seq!['/'] + e);
    lemma_path_one("/"@, e);
    assert("/kv/:name"@ =~= seq!['/'] + kv + seq!['/'] + pname);
    lemma_path_two("/kv/:name"@, kv, pname);
    assert("/kv/"@ =~= seq!['/'] + kv + seq!['/'] + e);
    lemma_path_two("/kv/"@, kv, e);
    assert("/template"@ =~= seq!['/'] + tpl);
    lemma_path_one("/template"@, tpl);
    assert("/version"@ =~= seq!['/'] + ver);
    lemma_path_one("/version"@, ver);
    assert(pname.drop_first() =~= seq!['n', 'a', 'm', 'e']);
    assert(template_segments("/"@) =~= seq![segment_of(e)]);
    assert(template_segments("/kv/:name"@) =~= seq![segment_of(kv), segment_of(pname)]);
    assert(template_segments("/kv/"@) =~= seq![segment_of(kv), segment_of(e)]);
    assert(template_segments("/template"@) =~= seq![segment_of(tpl)]);
    assert(template_segments("/version"@) =~= seq![segment_of(ver)]);
}

/// The service's routes, in the order they are registered.
pub open spec fn standard_routes(routes: Seq<Route>) -> bool {
    &&& routes.len() == 7
    &&& route_is(routes[0], Method::Get, "/"@, Handler::Greeting)
    &&& route_is(routes[1], Method::Get, "/kv/:name"@, Handler::KvGet)
    &&& route_is(routes[2], Method::Get, "/kv/"@, Handler::KvGet)
    &&& route_is(routes[3], Method::Post, "/kv/:name"@, Handler::KvPut)
    &&& route_is(routes[4], Method::Post, "/kv/"@, Handler::KvPut)
    &&& route_is(routes[5], Method::Get, "/template"@, Handler::Template)
    &&& route_is(routes[6], Method::Get, "/version"@, Handler::Version)
}

/// In the service's table, a read of `/kv/<name>` goes to the read handler and a write to the
/// write handler, each with `name` bound to the name.
pub proof fn lemma_standard_kv_routes(routes: Seq<Route>, n: Seq<char>)
    requires
        standard_routes(routes),
        n.len() > 0,
        forall|i: int| 0 <= i < n.len() ==> n[i] != '/',
    ensures
        first_match_from(routes, Method::Get, path_segments(seq!['/', 'k', 'v', '/'] + n), 0) == Some(
            (1int, seq![(seq!['n', 'a', 'm', 'e'], n)]),
        ),
        first_match_from(routes, Method::Post, path_segments(seq!['/', 'k', 'v', '/'] + n), 0) == Some(
            (3int, seq![(seq!['n', 'a', 'm', 'e'], n)]),
        ),
{
    lemma_standard_templates();
    let kv = seq!['k', 'v'];
    let s = seq!['/', 'k', 'v', '/'] + n;
    assert(s =~= seq!['/'] + kv + seq!['/'] + n);
    lemma_path_two(s, kv, n);
    let path = seq![kv, n];
    let name = seq!['n', 'a', 'm', 'e'];
    let pat = seq![SegmentView::Literal(kv), SegmentView::Param(name)];
    assert(bind_from(pat, path, 2) == Some(Seq::<(Seq<char>, Seq<char>)>::empty()));
    assert(bind_from(pat, path, 1) == Some(seq![(name, n)] + Seq::<(Seq<char>, Seq<char>)>::empty()));
    assert(seq![(name, n)] + Seq::<(Seq<char>, Seq<char>)>::empty() =~= seq![(name, n)]);
    assert(bind_from(pat, path, 0) == Some(seq![(name, n)]));
    assert(Seq::<char>::empty().len() != kv.len());
    assert(route_binds(routes[0], Method::Get, path) is None);
    lemma_first_match_wins(routes, Method::Get, path, 1);
    lemma_first_match_wins(routes, Method::Post, path, 3);
}

/// In the service's table, `GET /template` goes to the template handler, with no bindings.
pub proof fn lemma_standard_template_route(routes: Seq<Route>)
    requires
        standard_routes(routes),
    ensures
        first_match_from(routes, Method::Get, path_segments("/template"@), 0) == Some(
            (5int, Seq::<(Seq<char>, Seq<char>)>::empty()),
        ),
{
    lemma_standard_templates();
    let tpl = seq!['t', 'e', 'm', 'p', 'l', 'a', 't', 'e'];
    let path = seq![tpl];
    reveal_strlit("/template");
    assert("/template"@ =~= seq!['/'] + tpl);
    lemma_path_one("/template"@, tpl);
    assert(tpl.len() == 8);
    assert(tpl != seq!['k', 'v']);
    assert(tpl != Seq::<char>::empty());
    let pat = seq![SegmentView::Literal(tpl)];
    assert(bind_from(pat, path, 1) == Some(Seq::<(Seq<char>, Seq<char>)>::empty()));
    assert(route_binds(routes[0], Method::Get, path) is None);
    assert(route_binds(routes[1], Method::Get, path) is None);
    assert(route_binds(routes[2], Method::Get, path) is None);
    lemma_first_match_wins(routes, Method::Get, path, 5);
}

/// A route that matches a request, preceded by none that does, is the one chosen.
pub proof fn lemma_first_match_wins(routes: Seq<Route>, m: Method, path: Seq<Seq<char>>, i: int)
    requires
        0 <= i < routes.len(),
        route_binds(routes[i], m, path) is Some,
        forall|j: int| 0 <= j < i ==> (#[trigger] route_binds(routes[j], m, path)) is None,
    ensures
        first_match_from(routes, m, path, 0) == Some((i, route_binds(routes[i], m, path)->0)),
{
    lemma_first_match_from(routes, m, path, i, 0);
}

proof fn lemma_first_match_from(
    routes: Seq<Route>,
    m: Method,
    path: Seq<Seq<char>>,
    i: int,
    k: int,
)
    requires
        0 <= k <= i < routes.len(),
        route_binds(routes[i], m, path) is Some,
        forall|j: int| 0 <= j < i ==> (#[trigger] route_binds(routes[j], m, path)) is None,
    ensures
        first_match_from(routes, m, path, k) == Some((i, route_binds(routes[i], m, path)->0)),
    decreases i - k,
{
    if k < i {
        lemma_first_match_from(routes, m, path, i, k + 1);
    }
}

/// A request that exactly one route matches is dispatched to that route.
pub proof fn lemma_unique_match(routes: Seq<Route>, m: Method, path: Seq<Seq<char>>, i: int)
    requires
        0 <= i < routes.len(),
        route_binds(routes[i], m, path) is Some,
        forall|j: int| 0 <= j < routes.len() && j != i ==> (#[trigger] route_binds(routes[j], m, path)) is None,
    ensures
        first_match_from(routes, m, path, 0) == Some((i, route_binds(routes[i], m, path)->0)),
{
    lemma_first_match_wins(routes, m, path, i);
}

/// Walks `pat` against `path` from position `i`.
fn bind_exec(pat: &Vec<Segment>, path: &Vec<String>, i: usize) -> (r: Option<Vec<(String, String)>>)
    requires
        i <= path.len(),
    ensures
        match r {
            Some(b) => bind_from(segments_view(pat@), strings_view(path@), i as int) == Some(
                pairs_view(b@),
            ),
            None => bind_from(segments_view(pat@), strings_view(path@), i as int) is None,
        },
    decreases pat.len() - i,
{
    let ghost sv = segments_view(pat@);
    let ghost pv = strings_view(path@);
    if i >= pat.len() {
        if i == path.len() {
            let b: Vec<(String, String)> = Vec::new();
            proof {
                assert(pairs_view(b@) =~= Seq::empty());
            }
            return Some(b);
        } else {
            return None;
        }
    }
    assert(sv[i as int] == pat@[i as int]@);
    if i < path.len() {
        assert(pv[i as int] == path@[i as int]@);
    }
    match &pat[i] {
        Segment::Literal(t) => {
            if i < path.len() && path[i] == *t {
                bind_exec(pat, path, i + 1)
            } else {
                None
            }
        },
        Segment::Param(n) => {
            if i < path.len() && path[i].as_str().unicode_len() > 0 {
                match bind_exec(pat, path, i + 1) {
                    Some(b) => {
                        let mut b = b;
                        let ghost rest = pairs_view(b@);
                        b.insert(0, (n.clone(), path[i].clone()));
                        proof {
                            assert(pairs_view(b@) =~= seq![(n@, pv[i as int])] + rest);
                        }
                        Some(b)
                    },
                    None => None,
                }
            } else {
                None
            }
        },
        Segment::Wildcard(n) => {
            let rest = join_from(path, i);
            let mut b: Vec<(String, String)> = Vec::new();
            b.push((n.clone(), rest));
            proof {
                assert(pairs_view(b@) =~= seq![
                    (n@, join_with_slash(pv.subrange(i as int, pv.len() as int))),
                ]);
            }
            Some(b)
        },
    }
}

/// Whether two segments are the same.
fn same_segment(a: &Segment, b: &Segment) -> (r: bool)
    ensures
        r == (a@ == b@),
{
    match (a, b) {
        (Segment::Literal(x), Segment::Literal(y)) => *x == *y,
        (Segment::Param(x), Segment::Param(y)) => *x == *y,
        (Segment::Wildcard(x), Segment::Wildcard(y)) => *x == *y,
        _ => false,
    }
}

/// Whether two patterns have the same method and segments.
fn same_pattern(a: &RoutePattern, b: &RoutePattern) -> (r: bool)
    ensures
        r == (a.method == b.method && segments_view(a.segments@) == segments_view(b.segments@)),
{
    if a.method != b.method || a.segments.len() != b.segments.len() {
        proof {
            if a.segments.len() != b.segments.len() {
                assert(segments_view(a.segments@).len() != segments_view(b.segments@).len());
            }
        }
        return false;
    }
    let ghost av = segments_view(a.segments@);
    let ghost bv = segments_view(b.segments@);
    let mut i: usize = 0;
    while i < a.segments.len()
        invariant
            i <= a.segments.len() == b.segments.len(),
            av == segments_view(a.segments@),
            bv == segments_view(b.segments@),
            forall|j: int| 0 <= j < i ==> av[j] == bv[j],
        decreases a.segments.len() - i,
    {
        if !same_segment(&a.segments[i], &b.segments[i]) {
            assert(av[i as int] != bv[i as int]);
            return false;
        }
        i += 1;
    }
    assert(av =~= bv);
    true
}

impl ParamBinding {
    /// The value bound to `name`, the first one if it is bound twice.
    pub fn param(&self, name: &str) -> (r: Option<String>)
        ensures
            r is Some <==> lookup(pairs_view(self.pairs@), name@) is Some,
            r matches Some(v) ==> lookup(pairs_view(self.pairs@), name@) == Some(v@),
    {
        let key = String::from_str(name);
        match find_key(&self.pairs, &key) {
            Some(i) => {
                assert(pairs_view(self.pairs@)[i as int] == (
                    self.pairs@[i as int].0@,
                    self.pairs@[i as int].1@,
                ));
                Some(self.pairs[i].1.clone())
            },
            None => None,
        }
    }
}

impl RouteTable {
    /// The table's invariant.
    pub open spec fn wf(&self) -> bool {
        routes_wf(self.routes@)
    }

    /// An empty table.
    pub fn new() -> (r: RouteTable)
        ensures
            r.wf(),
            r.routes@.len() == 0,
    {
        RouteTable { routes: Vec::new() }
    }

    /// Registers `template` for `method`, after the routes already there.
    pub fn add(&mut self, method: Method, template: &str, handler: Handler) -> (r: Result<
        (),
        PatternError,
    >)
        requires
            old(self).wf(),
        ensures
            final(self).wf(),
            !well_formed_segments(crate::pattern::template_segments(template@)) ==> r == Err::<
                (),
                PatternError,
            >(PatternError::InvalidPattern),
            well_formed_segments(crate::pattern::template_segments(template@)) ==> {
                let dup = exists|j: int|
                    0 <= j < old(self).routes@.len()
                        && (#[trigger] old(self).routes@[j]).pattern.method == method
                        && segments_view(old(self).routes@[j].pattern.segments@)
                        == crate::pattern::template_segments(template@);
                &&& dup ==> r == Err::<(), PatternError>(PatternError::DuplicateRoute)
                &&& !dup ==> r is Ok
            },
            r is Err ==> final(self).routes@ == old(self).routes@,
            r is Ok ==> final(self).routes@.len() == old(self).routes@.len() + 1
                && final(self).routes@.take(old(self).routes@.len() as int) == old(self).routes@
                && final(self).routes@.last().handler == handler
                && final(self).routes@.last().pattern.method == method
                && segments_view(final(self).routes@.last().pattern.segments@)
                == crate::pattern::template_segments(template@),
    {
        let pattern = match compile(method, template) {
            Ok(p) => p,
            Err(e) => return Err(e),
        };
        let mut j: usize = 0;
        while j < self.routes.len()
            invariant
                j <= self.routes.len(),
                self.wf(),
                pattern.method == method,
                segments_view(pattern.segments@) == crate::pattern::template_segments(template@),
                forall|k: int| 0 <= k < j ==> !same_route(#[trigger] self.routes@[k], Route { pattern, handler }),
            decreases self.routes.len() - j,
        {
            if same_pattern(&self.routes[j].pattern, &pattern) {
                return Err(PatternError::DuplicateRoute);
            }
            j += 1;
        }
        let ghost before = self.routes@;
        let route = Route { pattern, handler };
        self.routes.push(route);
        proof {
            assert(self.routes@.take(before.len() as int) =~= before);
            assert forall|a: int, b: int| 0 <= a < b < self.routes@.len() implies !same_route(
                #[trigger] self.routes@[a],
                #[trigger] self.routes@[b],
            ) by {
                if b == before.len() {
                    assert(!same_route(before[a], route));
                }
            }
        }
        Ok(())
    }

    /// The routes this service answers: the greeting, the key-value routes (also without a
    /// name, so that a missing name reaches its handler), the template page and the version.
    pub fn standard() -> (r: Result<RouteTable, PatternError>)
        ensures
            r matches Ok(t) && t.wf() && standard_routes(t.routes@),
    {
        proof {
            lemma_standard_templates();
        }
        let mut t = RouteTable::new();
        t.add(Method::Get, "/", Handler::Greeting)?;
        let ghost r1 = t.routes@;
        t.add(Method::Get, "/kv/:name", Handler::KvGet)?;
        let ghost r2 = t.routes@;
        assert(r2[0] == r1[0]);
        t.add(Method::Get, "/kv/", Handler::KvGet)?;
        let ghost r3 = t.routes@;
        assert(r3[0] == r2[0] && r3[1] == r2[1]);
        t.add(Method::Post, "/kv/:name", Handler::KvPut)?;
        let ghost r4 = t.routes@;
        assert(r4[0] == r3[0] && r4[1] == r3[1] && r4[2] == r3[2]);
        t.add(Method::Post, "/kv/", Handler::KvPut)?;
        let ghost r5 = t.routes@;
        assert(r5[0] == r4[0] && r5[1] == r4[1] && r5[2] == r4[2] && r5[3] == r4[3]);
        proof {
            let tp = seq!['t', 'e', 'm', 'p', 'l', 'a', 't', 'e'];
            assert(tp.len() == 8);
            assert(template_segments("/template"@)[0] != template_segments("/"@)[0]);
        }
        t.add(Method::Get, "/template", Handler::Template)?;
        let ghost r6 = t.routes@;
        assert(r6[0] == r5[0] && r6[1] == r5[1] && r6[2] == r5[2] && r6[3] == r5[3] && r6[4]
            == r5[4]);
        proof {
            let tp = seq!['t', 'e', 'm', 'p', 'l', 'a', 't', 'e'];
            let vs = seq!['v', 'e', 'r', 's', 'i', 'o', 'n'];
            assert(tp.len() == 8 && vs.len() == 7);
            assert(template_segments("/version"@)[0] != template_segments("/"@)[0]);
            assert(template_segments("/version"@)[0] != template_segments("/template"@)[0]);
        }
        t.add(Method::Get, "/version", Handler::Version)?;
        let ghost r7 = t.routes@;
        assert(r7[0] == r6[0] && r7[1] == r6[1] && r7[2] == r6[2] && r7[3] == r6[3] && r7[4]
            == r6[4] && r7[5] == r6[5]);
        Ok(t)
    }

    /// Matches a request: the first route registered that matches it wins.
    pub fn find(&self, method: Method, path: &str) -> (r: MatchOutcome)
        ensures
            match first_match_from(self.routes@, method, path_segments(path@), 0) {
                Some((k, b)) => r matches MatchOutcome::Found(h, pb) && h == self.routes@[k].handler
                    && pairs_view(pb.pairs@) == b,
                None => if path_known(self.routes@, path_segments(path@)) {
                    r is MethodNotAllowed
                } else {
                    r is NotFound
                },
            },
    {
        let segs = path_segments_exec(path);
        let ghost pv = strings_view(segs@);
        let mut known = false;
        let mut k: usize = 0;
        while k < self.routes.len()
            invariant
                k <= self.routes.len(),
                pv == strings_view(segs@),
                pv == path_segments(path@),
                first_match_from(self.routes@, method, pv, 0) == first_match_from(
                    self.routes@,
                    method,
                    pv,
                    k as int,
                ),
                known == exists|j: int|
                    0 <= j < k && (#[trigger] route_path_binds(self.routes@[j], pv)) is Some,
            decreases self.routes.len() - k,
        {
            let route = &self.routes[k];
            match bind_exec(&route.pattern.segments, &segs, 0) {
                Some(b) => {
                    if route.pattern.method == method {
                        return MatchOutcome::Found(route.handler, ParamBinding { pairs: b });
                    }
                    known = true;
                },
                None => {
                    proof {
                        assert forall|j: int| 0 <= j < k + 1 implies #[trigger] route_path_binds(
                            self.routes@[j],
                            pv,
                        ) is Some <== (0 <= j < k && route_path_binds(self.routes@[j], pv) is Some) by {}
                    }
                },
            }
            k += 1;
        }
        if known {
            MatchOutcome::MethodNotAllowed
        } else {
            MatchOutcome::NotFound
        }
    }
}

} // verus!
