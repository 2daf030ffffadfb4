use vstd::prelude::*;

verus! {

/// The contents of a list of string pairs, as sequences of characters.
pub open spec fn pairs_view(v: Seq<(String, String)>) -> Seq<(Seq<char>, Seq<char>)> {
    v.map_values(|p: (String, String)| (p.0@, p.1@))
}

/// The contents of a list of strings, as sequences of characters.
pub open spec fn strings_view(v: Seq<String>) -> Seq<Seq<char>> {
    v.map_values(|s: String| s@)
}

/// Index of the first entry at or after `i` whose key is `k`, or -1.
pub open spec fn key_index(e: Seq<(Seq<char>, Seq<char>)>, k: Seq<char>, i: int) -> int
    decreases e.len() - i,
{
    if i < 0 || i >= e.len() {
        -1
    } else if e[i].0 == k {
        i
    } else {
        key_index(e, k, i + 1)
    }
}

/// The value of the first entry whose key is `k`.
pub open spec fn lookup(e: Seq<(Seq<char>, Seq<char>)>, k: Seq<char>) -> Option<Seq<char>> {
    let i = key_index(e, k, 0);
    if i >= 0 {
        Some(e[i].1)
    } else {
        None
    }
}

/// What `key_index` returns: no entry from `i` on has key `k`, or the first one that has.
pub proof fn lemma_key_index(e: Seq<(Seq<char>, Seq<char>)>, k: Seq<char>, i: int)
    requires
        0 <= i,
    ensures
        key_index(e, k, i) == -1 ==> forall|j: int| i <= j < e.len() ==> e[j].0 != k,
        key_index(e, k, i) != -1 ==> {
            let r = key_index(e, k, i);
            &&& i <= r < e.len()
            &&& e[r].0 == k
            &&& forall|j: int| i <= j < r ==> e[j].0 != k
        },
    decreases e.len() - i,
{
    if i < e.len() && e[i].0 != k {
        lemma_key_index(e, k, i + 1);
    }
}

/// The first entry with key `k` from `i` on is the one at `r`.
pub proof fn lemma_key_index_is(e: Seq<(Seq<char>, Seq<char>)>, k: Seq<char>, i: int, r: int)
    requires
        0 <= i <= r,
        r < e.len(),
        e[r].0 == k,
        forall|j: int| i <= j < r ==> e[j].0 != k,
    ensures
        key_index(e, k, i) == r,
    decreases r - i,
{
    if i < r {
        lemma_key_index_is(e, k, i + 1, r);
    }
}

/// No entry from `i` on has key `k`.
pub proof fn lemma_key_index_none(e: Seq<(Seq<char>, Seq<char>)>, k: Seq<char>, i: int)
    requires
        0 <= i,
        forall|j: int| i <= j < e.len() ==> e[j].0 != k,
    ensures
        key_index(e, k, i) == -1,
    decreases e.len() - i,
{
    if i < e.len() {
        lemma_key_index_none(e, k, i + 1);
    }
}

/// Finds the first entry of `v` whose key is `k`.
pub fn find_key(v: &Vec<(String, String)>, k: &String) -> (r: Option<usize>)
    ensures
        r is None <==> key_index(pairs_view(v@), k@, 0) == -1,
        r matches Some(i) ==> i as int == key_index(pairs_view(v@), k@, 0) && i < v.len()
            && v@[i as int].0@ == k@,
{
    let ghost e = pairs_view(v@);
    let mut i: usize = 0;
    while i < v.len()
        invariant
            i <= v.len(),
            e == pairs_view(v@),
            forall|j: int| 0 <= j < i ==> e[j].0 != k@,
        decreases v.len() - i,
    {
        assert(e[i as int] == (v@[i as int].0@, v@[i as int].1@));
        if v[i].0 == *k {
            proof {
                lemma_key_index_is(e, k@, 0, i as int);
            }
            return Some(i);
        }
        i += 1;
    }
    proof {
        lemma_key_index_none(e, k@, 0);
    }
    None
}

} // verus!
