use vstd::prelude::*;
use crate::assoc::{find_key, key_index, lemma_key_index, lemma_key_index_is, lookup, pairs_view};

verus! {

/// How a store operation failed.
#[derive(Clone, Copy, Debug, PartialEq, Eq, Structural)]
pub enum KvError {
    /// The store binding could not be resolved.
    Unavailable,
    /// The store or the transport to it failed.
    Store,
    /// The key or value was refused before anything was sent.
    Validation,
}

/// A validated write that takes effect only when executed.
#[derive(Clone, Debug)]
pub struct StagedPut {
    key: String,
    value: String,
}

impl StagedPut {
    pub closed spec fn key_view(&self) -> Seq<char> {
        self.key@
    }

    pub closed spec fn value_view(&self) -> Seq<char> {
        self.value@
    }

    /// The key the write is for.
    pub fn key(&self) -> (r: &String)
        ensures
            r@ == self.key_view(),
    {
        &self.key
    }

    /// The value the write stores.
    pub fn value(&self) -> (r: &String)
        ensures
            r@ == self.value_view(),
    {
        &self.value
    }

    /// Every staged write has a non-empty key.
    pub closed spec fn wf(&self) -> bool {
        self.key@.len() > 0
    }
}

/// Stages a write of `value` under `key`; an empty key is refused.
pub fn stage_put(key: &str, value: &str) -> (r: Result<StagedPut, KvError>)
    ensures
        r is Err <==> key@.len() == 0,
        r matches Err(e) ==> e == KvError::Validation,
        r matches Ok(p) ==> p.key_view() == key@ && p.value_view() == value@ && p.wf(),
{
    if key.unicode_len() == 0 {
        return Err(KvError::Validation);
    }
    Ok(StagedPut { key: String::from_str(key), value: String::from_str(value) })
}

/// The entries after writing `v` under `k`: the entry for `k` is replaced, or one is added.
pub open spec fn put_entries(e: Seq<(Seq<char>, Seq<char>)>, k: Seq<char>, v: Seq<char>) -> Seq<
    (Seq<char>, Seq<char>),
> {
    let i = key_index(e, k, 0);
    if i >= 0 {
        e.update(i, (k, v))
    } else {
        e.push((k, v))
    }
}

/// After a write, reading the key gives the value written.
pub proof fn lemma_put_then_get(e: Seq<(Seq<char>, Seq<char>)>, k: Seq<char>, v: Seq<char>)
    ensures
        lookup(put_entries(e, k, v), k) == Some(v),
{
    lemma_key_index(e, k, 0);
    let i = key_index(e, k, 0);
    let n = put_entries(e, k, v);
    if i >= 0 {
        lemma_key_index_is(n, k, 0, i);
    } else {
        lemma_key_index_is(n, k, 0, e.len() as int);
    }
}

/// A write leaves every other key as it was.
pub proof fn lemma_put_keeps_others(
    e: Seq<(Seq<char>, Seq<char>)>,
    k: Seq<char>,
    v: Seq<char>,
    other: Seq<char>,
)
    requires
        other != k,
    ensures
        lookup(put_entries(e, k, v), other) == lookup(e, other),
{
    lemma_key_index(e, other, 0);
    lemma_key_index(e, k, 0);
    let n = put_entries(e, k, v);
    lemma_key_index(n, other, 0);
    let i = key_index(e, other, 0);
    let j = key_index(n, other, 0);
    if i >= 0 {
        lemma_key_index_is(n, other, 0, i);
    } else if j >= 0 {
        assert(n[j].0 == other);
        assert(j < e.len() && e[j].0 == other);
    }
}

/// Executing the same write twice leaves what executing it once leaves.
pub proof fn lemma_put_idempotent(e: Seq<(Seq<char>, Seq<char>)>, k: Seq<char>, v: Seq<char>)
    ensures
        put_entries(put_entries(e, k, v), k, v) == put_entries(e, k, v),
{
    lemma_key_index(e, k, 0);
    let i = key_index(e, k, 0);
    let n = put_entries(e, k, v);
    if i >= 0 {
        lemma_key_index_is(n, k, 0, i);
        assert(n.update(i, (k, v)) =~= n);
    } else {
        lemma_key_index_is(n, k, 0, e.len() as int);
        assert(n.update(e.len() as int, (k, v)) =~= n);
    }
}

/// A store held in this process, with the facade's read and write semantics.
#[derive(Debug)]
pub struct MemoryStore {
    entries: Vec<(String, String)>,
}

impl View for MemoryStore {
    type V = Seq<(Seq<char>, Seq<char>)>;

    closed spec fn view(&self) -> Seq<(Seq<char>, Seq<char>)> {
        pairs_view(self.entries@)
    }
}

impl MemoryStore {
    /// A store with no entries.
    pub fn new() -> (r: MemoryStore)
        ensures
            r@ == Seq::<(Seq<char>, Seq<char>)>::empty(),
    {
        let r = MemoryStore { entries: Vec::new() };
        assert(r@ =~= Seq::<(Seq<char>, Seq<char>)>::empty());
        r
    }

    /// The value stored under `key`, `None` if there is none.
    pub fn get(&self, key: &str) -> (r: Option<String>)
        ensures
            r is Some <==> lookup(self@, key@) is Some,
            r matches Some(v) ==> lookup(self@, key@) == Some(v@),
    {
        let k = String::from_str(key);
        match find_key(&self.entries, &k) {
            Some(i) => {
                assert(self@[i as int] == (self.entries@[i as int].0@, self.entries@[i as int].1@));
                Some(self.entries[i].1.clone())
            },
            None => None,
        }
    }

    /// Carries out a staged write.
    pub fn execute(&mut self, put: &StagedPut) -> (r: Result<(), KvError>)
        ensures
            r is Ok,
            final(self)@ == put_entries(old(self)@, put.key_view(), put.value_view()),
    {
        let ghost before = self@;
        match find_key(&self.entries, put.key()) {
            Some(i) => {
                self.entries.set(i, (put.key().clone(), put.value().clone()));
                assert(self@ =~= before.update(i as int, (put.key_view(), put.value_view())));
            },
            None => {
                self.entries.push((put.key().clone(), put.value().clone()));
                assert(self@ =~= before.push((put.key_view(), put.value_view())));
            },
        }
        Ok(())
    }

    /// The keys held, in the order they were first written.
    pub fn list(&self) -> (r: Vec<String>)
        ensures
            r@.len() == self@.len(),
            forall|i: int| 0 <= i < r@.len() ==> #[trigger] r@[i]@ == self@[i].0,
    {
        let mut keys: Vec<String> = Vec::new();
        let mut i: usize = 0;
        while i < self.entries.len()
            invariant
                i <= self.entries.len(),
                keys@.len() == i,
                forall|j: int| 0 <= j < i ==> #[trigger] keys@[j]@ == self@[j].0,
            decreases self.entries.len() - i,
        {
            assert(self@[i as int] == (self.entries@[i as int].0@, self.entries@[i as int].1@));
            keys.push(self.entries[i].0.clone());
            i += 1;
        }
        keys
    }
}

} // verus!
