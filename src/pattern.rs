use vstd::prelude::*;
use crate::assoc::strings_view;

verus! {

/// The request methods a route can be registered for.
#[derive(Clone, Copy, Debug, PartialEq, Eq, Structural)]
pub enum Method {
    Get,
    Head,
    Post,
    Put,
    Patch,
    Delete,
    Options,
}

/// One segment of a compiled route pattern.
#[derive(Clone, Debug)]
pub enum Segment {
    Literal(String),
    Param(String),
    Wildcard(String),
}

/// A segment with its text as a sequence of characters.
pub enum SegmentView {
    Literal(Seq<char>),
    Param(Seq<char>),
    Wildcard(Seq<char>),
}

impl View for Segment {
    type V = SegmentView;

    open spec fn view(&self) -> SegmentView {
        match self {
            Segment::Literal(t) => SegmentView::Literal(t@),
            Segment::Param(n) => SegmentView::Param(n@),
            Segment::Wildcard(n) => SegmentView::Wildcard(n@),
        }
    }
}

/// Why a route could not be registered.
#[derive(Clone, Copy, Debug, PartialEq, Eq, Structural)]
pub enum PatternError {
    /// A second wildcard, a wildcard before the last segment, or an empty name.
    InvalidPattern,
    /// The method and path are already registered.
    DuplicateRoute,
}

/// A compiled route: its method and its segments.
#[derive(Clone, Debug)]
pub struct RoutePattern {
    pub method: Method,
    pub segments: Vec<Segment>,
}

pub open spec fn segments_view(v: Seq<Segment>) -> Seq<SegmentView> {
    v.map_values(|s: Segment| s@)
}

/// The pieces of `s` between the slashes, empty pieces included.
pub open spec fn split_on_slash(s: Seq<char>) -> Seq<Seq<char>>
    decreases s.len(),
{
    if s.len() == 0 {
        seq![Seq::<char>::empty()]
    } else {
        let p = split_on_slash(s.drop_last());
        if s.last() == '/' {
            p.push(Seq::<char>::empty())
        } else {
            p.update(p.len() - 1, p.last().push(s.last()))
        }
    }
}

/// The segments of a path or template: its pieces, without the empty one before a leading slash.
pub open spec fn path_segments(s: Seq<char>) -> Seq<Seq<char>> {
    if s.len() > 0 && s[0] == '/' {
        split_on_slash(s).drop_first()
    } else {
        split_on_slash(s)
    }
}

/// Segments put back together with a slash between each two.
pub open spec fn join_with_slash(segs: Seq<Seq<char>>) -> Seq<char>
    decreases segs.len(),
{
    if segs.len() == 0 {
        Seq::<char>::empty()
    } else if segs.len() == 1 {
        segs[0]
    } else {
        join_with_slash(segs.drop_last()) + seq!['/'] + segs.last()
    }
}

/// What a template segment compiles to: `:name` a parameter, `*name` a wildcard, else a literal.
pub open spec fn segment_of(t: Seq<char>) -> SegmentView {
    if t.len() > 0 && t[0] == ':' {
        SegmentView::Param(t.drop_first())
    } else if t.len() > 0 && t[0] == '*' {
        SegmentView::Wildcard(t.drop_first())
    } else {
        SegmentView::Literal(t)
    }
}

/// Every name is non-empty, and a wildcard stands only last (so there is at most one).
pub open spec fn well_formed_segments(segs: Seq<SegmentView>) -> bool {
    forall|i: int|
        0 <= i < segs.len() ==> match #[trigger] segs[i] {
            SegmentView::Literal(_) => true,
            SegmentView::Param(n) => n.len() > 0,
            SegmentView::Wildcard(n) => n.len() > 0 && i == segs.len() - 1,
        }
}

/// The segments that a template compiles to.
pub open spec fn template_segments(t: Seq<char>) -> Seq<SegmentView> {
    path_segments(t).map_values(|p: Seq<char>| segment_of(p))
}

proof fn lemma_split_nonempty(s: Seq<char>)
    ensures
        split_on_slash(s).len() >= 1,
    decreases s.len(),
{
    if s.len() > 0 {
        lemma_split_nonempty(s.drop_last());
    }
}

/// A text without a slash is one piece.
pub proof fn lemma_split_no_slash(b: Seq<char>)
    requires
        forall|i: int| 0 <= i < b.len() ==> b[i] != '/',
    ensures
        split_on_slash(b) == seq![b],
    decreases b.len(),
{
    if b.len() == 0 {
        assert(b =~= Seq::<char>::empty());
    } else {
        assert(b[b.len() - 1] != '/');
        lemma_split_no_slash(b.drop_last());
        assert(b.drop_last().push(b.last()) =~= b);
        assert(seq![b.drop_last()].update(0, b.drop_last().push(b.last())) =~= seq![b]);
    }
}

/// The pieces on both sides of a slash are the pieces of each side.
pub proof fn lemma_split_concat(a: Seq<char>, b: Seq<char>)
    ensures
        split_on_slash(a + seq!['/'] + b) == split_on_slash(a) + split_on_slash(b),
    decreases b.len(),
{
    let x = a + seq!['/'] + b;
    lemma_split_nonempty(a);
    if b.len() == 0 {
        assert(x.drop_last() =~= a);
        assert(split_on_slash(a).push(Seq::<char>::empty()) =~= split_on_slash(a) + seq![
            Seq::<char>::empty(),
        ]);
    } else {
        let bd = b.drop_last();
        assert(x.drop_last() =~= a + seq!['/'] + bd);
        lemma_split_concat(a, bd);
        lemma_split_nonempty(bd);
        let pa = split_on_slash(a);
        let pb = split_on_slash(bd);
        assert(x.last() == b.last());
        if b.last() == '/' {
            assert((pa + pb).push(Seq::<char>::empty()) =~= pa + pb.push(Seq::<char>::empty()));
        } else {
            assert((pa + pb).update((pa + pb).len() - 1, pb.last().push(b.last())) =~= pa + pb.update(
                pb.len() - 1,
                pb.last().push(b.last()),
            ));
        }
    }
}

/// Splits a text made of a leading slash and one piece.
pub proof fn lemma_path_one(s: Seq<char>, p: Seq<char>)
    requires
        s == seq!['/'] + p,
        forall|i: int| 0 <= i < p.len() ==> p[i] != '/',
    ensures
        path_segments(s) == seq![p],
{
    assert(s =~= Seq::<char>::empty() + seq!['/'] + p);
    lemma_split_concat(Seq::<char>::empty(), p);
    lemma_split_no_slash(p);
    assert(split_on_slash(Seq::<char>::empty()) == seq![Seq::<char>::empty()]);
    assert((seq![Seq::<char>::empty()] + seq![p]).drop_first() =~= seq![p]);
}

/// Splits a text made of a leading slash and two pieces.
pub proof fn lemma_path_two(s: Seq<char>, p: Seq<char>, q: Seq<char>)
    requires
        s == seq!['/'] + p + seq!['/'] + q,
        forall|i: int| 0 <= i < p.len() ==> p[i] != '/',
        forall|i: int| 0 <= i < q.len() ==> q[i] != '/',
    ensures
        path_segments(s) == seq![p, q],
{
    let e = Seq::<char>::empty();
    assert(s =~= e + seq!['/'] + (p + seq!['/'] + q));
    lemma_split_concat(e, p + seq!['/'] + q);
    lemma_split_concat(p, q);
    lemma_split_no_slash(p);
    lemma_split_no_slash(q);
    assert(split_on_slash(e) == seq![e]);
    assert((seq![e] + (seq![p] + seq![q])).drop_first() =~= seq![p, q]);
}

/// Splits `s` at each slash.
fn split_on_slash_exec(s: &str) -> (r: Vec<String>)
    ensures
        strings_view(r@) == split_on_slash(s@),
{
    let n = s.unicode_len();
    let mut pieces: Vec<String> = Vec::new();
    let mut start: usize = 0;
    let mut i: usize = 0;
    proof {
        assert(s@.take(0) =~= Seq::<char>::empty());
        assert(s@.subrange(0, 0) =~= Seq::<char>::empty());
        assert(strings_view(pieces@) =~= Seq::<Seq<char>>::empty());
        assert(strings_view(pieces@).push(Seq::<char>::empty()) =~= seq![Seq::<char>::empty()]);
    }
    while i < n
        invariant
            start <= i <= n,
            n == s@.len(),
            strings_view(pieces@).push(s@.subrange(start as int, i as int)) == split_on_slash(
                s@.take(i as int),
            ),
        decreases n - i,
    {
        let c = s.get_char(i);
        let ghost before = strings_view(pieces@);
        proof {
            assert(s@.take(i + 1).drop_last() =~= s@.take(i as int));
            lemma_split_nonempty(s@.take(i as int));
        }
        if c == '/' {
            let piece = String::from_str(s.substring_char(start, i));
            pieces.push(piece);
            proof {
                assert(strings_view(pieces@) =~= before.push(s@.subrange(start as int, i as int)));
                assert(s@.subrange(i + 1, i + 1) =~= Seq::<char>::empty());
            }
            start = i + 1;
        } else {
            proof {
                assert(s@.subrange(start as int, i + 1) =~= s@.subrange(start as int, i as int).push(
                    c,
                ));
                assert(before.push(s@.subrange(start as int, i + 1)) =~= before.push(
                    s@.subrange(start as int, i as int),
                ).update(before.len() as int, s@.subrange(start as int, i as int).push(c)));
            }
        }
        i += 1;
    }
    let last = String::from_str(s.substring_char(start, n));
    let ghost before = strings_view(pieces@);
    pieces.push(last);
    proof {
        assert(strings_view(pieces@) =~= before.push(s@.subrange(start as int, n as int)));
        assert(s@.take(n as int) =~= s@);
    }
    pieces
}

/// Splits a path or template into its segments.
pub fn path_segments_exec(s: &str) -> (r: Vec<String>)
    ensures
        strings_view(r@) == path_segments(s@),
{
    let mut pieces = split_on_slash_exec(s);
    proof {
        lemma_split_nonempty(s@);
    }
    if s.unicode_len() > 0 && s.get_char(0) == '/' {
        let ghost before = pieces@;
        pieces.remove(0);
        proof {
            assert(strings_view(pieces@) =~= strings_view(before).drop_first());
        }
    }
    pieces
}

/// Joins `segs[from..]` with a slash between each two.
pub fn join_from(segs: &Vec<String>, from: usize) -> (r: String)
    requires
        from <= segs.len(),
    ensures
        r@ == join_with_slash(strings_view(segs@).subrange(from as int, segs.len() as int)),
{
    let ghost v = strings_view(segs@);
    let mut acc = String::new();
    if from == segs.len() {
        proof {
            assert(v.subrange(from as int, segs.len() as int).len() == 0);
        }
        return acc;
    }
    acc.append(segs[from].as_str());
    let mut i: usize = from + 1;
    proof {
        assert(v.subrange(from as int, i as int) =~= seq![v[from as int]]);
    }
    while i < segs.len()
        invariant
            from < i <= segs.len(),
            v == strings_view(segs@),
            acc@ == join_with_slash(v.subrange(from as int, i as int)),
        decreases segs.len() - i,
    {
        proof {
            reveal_strlit("/");
            assert(v.subrange(from as int, i + 1).drop_last() =~= v.subrange(from as int, i as int));
        }
        acc.append("/");
        acc.append(segs[i].as_str());
        i += 1;
    }
    acc
}

/// Compiles one template segment.
fn segment_from(t: &String) -> (r: Segment)
    ensures
        r@ == segment_of(t@),
{
    let s = t.as_str();
    let n = s.unicode_len();
    if n > 0 {
        let c = s.get_char(0);
        if c == ':' {
            return Segment::Param(String::from_str(s.substring_char(1, n)));
        } else if c == '*' {
            return Segment::Wildcard(String::from_str(s.substring_char(1, n)));
        }
    }
    Segment::Literal(t.clone())
}

/// Whether a segment is valid at position `i` of `len` segments.
fn segment_ok(seg: &Segment, i: usize, len: usize) -> (r: bool)
    requires
        i < len,
    ensures
        r == match seg@ {
            SegmentView::Literal(_) => true,
            SegmentView::Param(n) => n.len() > 0,
            SegmentView::Wildcard(n) => n.len() > 0 && i == len - 1,
        },
{
    match seg {
        Segment::Literal(_) => true,
        Segment::Param(n) => n.as_str().unicode_len() > 0,
        Segment::Wildcard(n) => n.as_str().unicode_len() > 0 && i == len - 1,
    }
}

/// Compiles a route template: `:name` segments become parameters, a final `*name` a wildcard.
pub fn compile(method: Method, template: &str) -> (r: Result<RoutePattern, PatternError>)
    ensures
        r is Ok <==> well_formed_segments(template_segments(template@)),
        r matches Ok(p) ==> p.method == method && segments_view(p.segments@) == template_segments(
            template@,
        ),
        r matches Err(e) ==> e == PatternError::InvalidPattern,
{
    let pieces = path_segments_exec(template);
    let ghost pv = strings_view(pieces@);
    let ghost want = template_segments(template@);
    let mut segments: Vec<Segment> = Vec::new();
    let mut i: usize = 0;
    while i < pieces.len()
        invariant
            i <= pieces.len(),
            pv == strings_view(pieces@),
            pv == path_segments(template@),
            want == pv.map_values(|p: Seq<char>| segment_of(p)),
            segments_view(segments@) == want.take(i as int),
        decreases pieces.len() - i,
    {
        let seg = segment_from(&pieces[i]);
        let ghost before = segments_view(segments@);
        segments.push(seg);
        proof {
            assert(segments_view(segments@) =~= before.push(seg@));
            assert(pv[i as int] == pieces@[i as int]@);
            assert(want[i as int] == segment_of(pv[i as int]));
            assert(want.take(i + 1) =~= want.take(i as int).push(want[i as int]));
        }
        i += 1;
    }
    proof {
        assert(want.take(i as int) =~= want);
    }
    let n = segments.len();
    let mut k: usize = 0;
    while k < n
        invariant
            k <= n,
            n == segments.len(),
            segments_view(segments@) == want,
            want == template_segments(template@),
            forall|j: int|
                0 <= j < k ==> match #[trigger] want[j] {
                    SegmentView::Literal(_) => true,
                    SegmentView::Param(m) => m.len() > 0,
                    SegmentView::Wildcard(m) => m.len() > 0 && j == want.len() - 1,
                },
        decreases n - k,
    {
        if !segment_ok(&segments[k], k, n) {
            proof {
                assert(want[k as int] == segments@[k as int]@);
                assert(!well_formed_segments(want));
            }
            return Err(PatternError::InvalidPattern);
        }
        k += 1;
    }
    Ok(RoutePattern { method, segments })
}

} // verus!
