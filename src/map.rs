//! A small associative table with linear-scan lookup.
use vstd::laws_eq::obeys_concrete_eq;
use vstd::prelude::*;
use vstd::std_specs::cmp::PartialEqSpec;

verus! {

/// At most one entry has a given key.
pub open spec fn no_dup_keys<K, V>(s: Seq<(K, V)>) -> bool {
    forall|i: int, j: int|
        0 <= i < s.len() && 0 <= j < s.len() && i != j ==> #[trigger] s[i].0 != #[trigger] s[j].0
}

pub open spec fn has_key<K, V>(s: Seq<(K, V)>, k: K) -> bool {
    exists|i: int| 0 <= i < s.len() && #[trigger] s[i].0 == k
}

/// Position of the entry with key `k`, or -1 when there is none.
pub open spec fn index_of<K, V>(s: Seq<(K, V)>, k: K) -> int {
    if has_key(s, k) {
        choose|i: int| 0 <= i < s.len() && #[trigger] s[i].0 == k
    } else {
        -1
    }
}

/// The value stored under `k`.
pub open spec fn lookup<K, V>(s: Seq<(K, V)>, k: K) -> Option<V> {
    if has_key(s, k) {
        Some(s[index_of(s, k)].1)
    } else {
        None
    }
}

/// The entries after `insert(k, v)`: an update in place, or an append.
pub open spec fn inserted<K, V>(s: Seq<(K, V)>, k: K, v: V) -> Seq<(K, V)> {
    if has_key(s, k) {
        s.update(index_of(s, k), (k, v))
    } else {
        s.push((k, v))
    }
}

/// The entries after `remove(k)`: the others, in their order.
pub open spec fn removed<K, V>(s: Seq<(K, V)>, k: K) -> Seq<(K, V)> {
    if has_key(s, k) {
        s.remove(index_of(s, k))
    } else {
        s
    }
}

proof fn lemma_index_of_unique<K, V>(s: Seq<(K, V)>, k: K, i: int)
    requires
        no_dup_keys(s),
        0 <= i < s.len(),
        s[i].0 == k,
    ensures
        has_key(s, k),
        index_of(s, k) == i,
{
    assert(s[i].0 == k);
    let j = index_of(s, k);
    assert(0 <= j < s.len() && s[j].0 == k);
}

/// Inserting keeps one entry per key, and a lookup of the key just inserted
/// gives the value just inserted.
pub proof fn law_insert_then_get<K, V>(s: Seq<(K, V)>, k: K, v: V)
    requires
        no_dup_keys(s),
    ensures
        no_dup_keys(inserted(s, k, v)),
        lookup(inserted(s, k, v), k) == Some(v),
{
    let t = inserted(s, k, v);
    if has_key(s, k) {
        let i = index_of(s, k);
        assert(t[i].0 == k);
        lemma_index_of_unique(s, k, i);
        assert(no_dup_keys(t));
        lemma_index_of_unique(t, k, i);
    } else {
        let n = s.len() as int;
        assert(t[n].0 == k);
        assert forall|i: int, j: int|
            0 <= i < t.len() && 0 <= j < t.len() && i != j implies #[trigger] t[i].0
            != #[trigger] t[j].0 by {
            if i < n && j < n {
                assert(s[i].0 != s[j].0);
            } else if i < n {
                assert(s[i].0 != k);
            } else {
                assert(s[j].0 != k);
            }
        }
        lemma_index_of_unique(t, k, n);
    }
}

/// After a removal the key is no longer found.
pub proof fn law_remove_then_get<K, V>(s: Seq<(K, V)>, k: K)
    requires
        no_dup_keys(s),
    ensures
        no_dup_keys(removed(s, k)),
        lookup(removed(s, k), k) == None::<V>,
{
    let t = removed(s, k);
    if has_key(s, k) {
        let i = index_of(s, k);
        lemma_index_of_unique(s, k, i);
        assert forall|a: int, b: int|
            0 <= a < t.len() && 0 <= b < t.len() && a != b implies #[trigger] t[a].0
            != #[trigger] t[b].0 by {
            let sa = if a < i { a } else { a + 1 };
            let sb = if b < i { b } else { b + 1 };
            assert(t[a] == s[sa] && t[b] == s[sb]);
        }
        if has_key(t, k) {
            let a = choose|a: int| 0 <= a < t.len() && #[trigger] t[a].0 == k;
            let sa = if a < i { a } else { a + 1 };
            assert(t[a] == s[sa]);
            assert(s[sa].0 == s[i].0);
        }
    }
}

/// Inserting under one key leaves every entry of another key where it was,
/// and only ever appends at the end.
pub proof fn law_insert_keeps_other_entries<K, V>(s: Seq<(K, V)>, k: K, v: V)
    requires
        no_dup_keys(s),
    ensures
        inserted(s, k, v).len() >= s.len(),
        forall|i: int| 0 <= i < s.len() && s[i].0 != k ==> #[trigger] inserted(s, k, v)[i] == s[i],
{
}

/// A table of key/value pairs kept in insertion order, one entry per key.
pub struct SimpleMap<K, V> {
    data: Vec<(K, V)>,
}

impl<K, V> View for SimpleMap<K, V> {
    type V = Seq<(K, V)>;

    closed spec fn view(&self) -> Seq<(K, V)> {
        self.data@
    }
}

impl<K: PartialEq, V: PartialEq> SimpleMap<K, V> {
    pub open spec fn wf(&self) -> bool {
        no_dup_keys(self@)
    }

    /// An empty table.
    pub fn new() -> (r: Self)
        ensures
            r@ == Seq::<(K, V)>::empty(),
            r.wf(),
    {
        SimpleMap { data: Vec::new() }
    }

    /// Position of the entry with key `key`, if any.
    fn position(&self, key: &K) -> (r: Option<usize>)
        requires
            obeys_concrete_eq::<K>(),
        ensures
            match r {
                Some(i) => i < self@.len() && self@[i as int].0 == *key && forall|j: int|
                    0 <= j < i ==> #[trigger] self@[j].0 != *key,
                None => !has_key(self@, *key),
            },
    {
        proof {
            reveal(obeys_concrete_eq);
        }
        let mut i: usize = 0;
        while i < self.data.len()
            invariant
                i <= self.data@.len(),
                obeys_concrete_eq::<K>(),
                K::obeys_eq_spec(),
                forall|x: K, y: K| x.eq_spec(&y) <==> x == y,
                forall|j: int| 0 <= j < i ==> #[trigger] self@[j].0 != *key,
            decreases self.data@.len() - i,
        {
            if self.data[i].0 == *key {
                return Some(i);
            }
            i = i + 1;
        }
        None
    }

    /// Sets the value under `key`, overwriting an existing entry in place or
    /// appending a new one.
    pub fn insert(&mut self, key: K, value: V)
        requires
            old(self).wf(),
            obeys_concrete_eq::<K>(),
        ensures
            final(self).wf(),
            final(self)@ == inserted(old(self)@, key, value),
    {
        match self.position(&key) {
            Some(i) => {
                proof {
                    lemma_index_of_unique(self@, key, i as int);
                }
                self.data.set(i, (key, value));
            },
            None => {
                self.data.push((key, value));
            },
        }
    }

    /// The value stored under `key`, if any.
    pub fn get(&self, key: &K) -> (r: Option<&V>)
        requires
            self.wf(),
            obeys_concrete_eq::<K>(),
        ensures
            match r {
                Some(v) => lookup(self@, *key) == Some(*v),
                None => lookup(self@, *key) == None::<V>,
            },
    {
        match self.position(key) {
            Some(i) => {
                proof {
                    lemma_index_of_unique(self@, *key, i as int);
                }
                Some(&self.data[i].1)
            },
            None => None,
        }
    }

    /// Takes the entry under `key` out of the table, keeping the others in
    /// their order.
    pub fn remove(&mut self, key: &K) -> (r: Option<V>)
        requires
            old(self).wf(),
            obeys_concrete_eq::<K>(),
        ensures
            final(self).wf(),
            final(self)@ == removed(old(self)@, *key),
            r == lookup(old(self)@, *key),
    {
        match self.position(key) {
            Some(i) => {
                proof {
                    lemma_index_of_unique(self@, *key, i as int);
                }
                let (_, v) = self.data.remove(i);
                Some(v)
            },
            None => None,
        }
    }
}

} // verus!
