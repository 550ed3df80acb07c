//! A map keyed by text that remembers the order in which keys were first
//! inserted: environment variables, inputs, secrets and the jobs of a
//! workflow.
use vstd::prelude::*;

use crate::text::same_text;

verus! {

/// The key of an entry.
pub open spec fn key_of<V>(e: (String, V)) -> Seq<char> {
    e.0@
}

/// No key occurs twice.
pub open spec fn distinct_keys<V>(es: Seq<(String, V)>) -> bool {
    forall|i: int, j: int| 0 <= i < j < es.len() ==> key_of(#[trigger] es[i]) != key_of(#[trigger] es[j])
}

/// Index of the entry with key `k`, or `-1`.
pub open spec fn index_in<V>(es: Seq<(String, V)>, k: Seq<char>) -> int
    decreases es.len(),
{
    if es.len() == 0 {
        -1
    } else if key_of(es.last()) == k {
        es.len() - 1
    } else {
        index_in(es.drop_last(), k)
    }
}

pub proof fn lemma_index_in<V>(es: Seq<(String, V)>, k: Seq<char>)
    ensures
        -1 <= index_in(es, k) < es.len(),
        index_in(es, k) >= 0 ==> key_of(es[index_in(es, k)]) == k,
        index_in(es, k) == -1 <==> (forall|i: int| 0 <= i < es.len() ==> key_of(#[trigger] es[i]) != k),
    decreases es.len(),
{
    if es.len() > 0 {
        lemma_index_in(es.drop_last(), k);
        if key_of(es.last()) != k {
            assert forall|i: int| 0 <= i < es.len() - 1 implies es.drop_last()[i] == es[i] by {}
        }
    }
}

/// The value of the last entry of `es` with key `k`, if any.
pub open spec fn lookup_in<V>(es: Seq<(String, V)>, k: Seq<char>) -> Option<V> {
    let i = index_in(es, k);
    if i >= 0 {
        Some(es[i].1)
    } else {
        None
    }
}

/// Giving an entry a new value under the same key moves no key.
pub proof fn lemma_index_in_update<V>(es: Seq<(String, V)>, i: int, e: (String, V), k: Seq<char>)
    requires
        0 <= i < es.len(),
        key_of(e) == key_of(es[i]),
    ensures
        index_in(es.update(i, e), k) == index_in(es, k),
    decreases es.len(),
{
    let u = es.update(i, e);
    if i < es.len() - 1 {
        assert(u.drop_last() =~= es.drop_last().update(i, e));
        lemma_index_in_update(es.drop_last(), i, e, k);
    } else {
        assert(u.drop_last() =~= es.drop_last());
    }
}

/// A map keyed by text, in first-insertion order, with each key once.
#[derive(Debug, Clone, PartialEq)]
pub struct TextMap<V> {
    entries: Vec<(String, V)>,
}

impl<V> TextMap<V> {
    /// The entries, in order.
    pub closed spec fn entries(&self) -> Seq<(String, V)> {
        self.entries@
    }

    /// The map holds each key once.
    pub open spec fn wf(&self) -> bool {
        distinct_keys(self.entries())
    }

    /// The keys, in order.
    pub open spec fn keys_view(&self) -> Seq<Seq<char>> {
        self.entries().map_values(|e: (String, V)| e.0@)
    }

    /// The value stored under `k`, if any.
    pub open spec fn lookup(&self, k: Seq<char>) -> Option<V> {
        lookup_in(self.entries(), k)
    }

    /// The key `k` is present.
    pub open spec fn has(&self, k: Seq<char>) -> bool {
        index_in(self.entries(), k) >= 0
    }

    /// An empty map.
    pub fn new() -> (r: Self)
        ensures
            r.wf(),
            r.entries() == Seq::<(String, V)>::empty(),
    {
        TextMap { entries: Vec::new() }
    }

    /// Number of entries.
    pub fn len(&self) -> (r: usize)
        ensures
            r == self.entries().len(),
    {
        self.entries.len()
    }

    /// Whether the map has no entries.
    pub fn is_empty(&self) -> (r: bool)
        ensures
            r == (self.entries().len() == 0),
    {
        self.entries.len() == 0
    }

    /// Index of the entry with key `key`.
    pub fn index_of(&self, key: &str) -> (r: Option<usize>)
        ensures
            match r {
                Some(i) => i == index_in(self.entries(), key@) && i < self.entries().len()
                    && key_of(self.entries()[i as int]) == key@,
                None => index_in(self.entries(), key@) == -1,
            },
    {
        proof {
            lemma_index_in(self.entries(), key@);
        }
        let mut i = self.entries.len();
        assert(self.entries@.take(i as int) =~= self.entries@);
        while i > 0
            invariant
                i <= self.entries@.len(),
                index_in(self.entries@, key@) == index_in(self.entries@.take(i as int), key@),
            decreases i,
        {
            let ghost prefix = self.entries@.take(i as int);
            proof {
                assert(prefix.drop_last() =~= self.entries@.take(i - 1));
                assert(prefix.last() == self.entries@[i - 1]);
            }
            if same_text(self.entries[i - 1].0.as_str(), key) {
                return Some(i - 1);
            }
            i = i - 1;
        }
        None
    }

    /// Whether `key` is present.
    pub fn contains_key(&self, key: &str) -> (r: bool)
        ensures
            r == self.has(key@),
    {
        self.index_of(key).is_some()
    }

    /// The value stored under `key`.
    pub fn get(&self, key: &str) -> (r: Option<&V>)
        ensures
            match r {
                Some(v) => self.lookup(key@) == Some(*v),
                None => self.lookup(key@) is None,
            },
    {
        match self.index_of(key) {
            Some(i) => Some(&self.entries[i].1),
            None => None,
        }
    }

    /// The key of entry `i`.
    pub fn key_at(&self, i: usize) -> (r: &String)
        requires
            i < self.entries().len(),
        ensures
            *r == self.entries()[i as int].0,
    {
        &self.entries[i].0
    }

    /// The value of entry `i`.
    pub fn value_at(&self, i: usize) -> (r: &V)
        requires
            i < self.entries().len(),
        ensures
            *r == self.entries()[i as int].1,
    {
        &self.entries[i].1
    }

    /// Stores `value` under `key`: in place when the key is present,
    /// at the end otherwise.
    pub fn insert(&mut self, key: String, value: V)
        requires
            old(self).wf(),
        ensures
            final(self).wf(),
            ({
                let i = index_in(old(self).entries(), key@);
                if i >= 0 {
                    final(self).entries() == old(self).entries().update(i, (old(self).entries()[i].0, value))
                } else {
                    final(self).entries() == old(self).entries().push((key, value))
                }
            }),
            forall|k: Seq<char>| #[trigger] final(self).lookup(k) == if k == key@ {
                Some(value)
            } else {
                old(self).lookup(k)
            },
    {
        proof {
            lemma_index_in(self.entries@, key@);
        }
        let ghost before = self.entries@;
        let ghost kv = key@;
        let ghost vv = value;
        match self.index_of(key.as_str()) {
            Some(i) => {
                let ghost before = self.entries@;
                let k = self.entries[i].0.clone();
                self.entries.set(i, (k, value));
                proof {
                    assert forall|a: int, b: int| 0 <= a < b < self.entries@.len() implies key_of(#[trigger] self.entries@[a]) != key_of(#[trigger] self.entries@[b]) by {
                        assert(key_of(self.entries@[a]) == key_of(before[a]));
                        assert(key_of(self.entries@[b]) == key_of(before[b]));
                    }
                }
            },
            None => {
                self.entries.push((key, value));
            },
        }
        proof {
            assert forall|k: Seq<char>| #[trigger] self.lookup(k) == if k == kv {
                Some(vv)
            } else {
                lookup_in(before, k)
            } by {
                lemma_index_in(before, k);
                if index_in(before, kv) >= 0 {
                    lemma_index_in_update(before, index_in(before, kv), self.entries@[index_in(before, kv)], k);
                } else {
                    assert(self.entries@.drop_last() =~= before);
                }
            }
        }
    }
}

/// The key and value texts of an entry.
pub open spec fn text_pair(e: (String, String)) -> (Seq<char>, Seq<char>) {
    (e.0@, e.1@)
}

impl TextMap<String> {
    /// The entries as pairs of texts.
    pub open spec fn texts(&self) -> Seq<(Seq<char>, Seq<char>)> {
        self.entries().map_values(|e: (String, String)| text_pair(e))
    }

    /// Stores every entry of `top` over this map: a key of `top` takes its
    /// value from `top`, any other key keeps its value.
    pub fn extend_with(&mut self, top: &TextMap<String>)
        requires
            old(self).wf(),
        ensures
            final(self).wf(),
            forall|k: Seq<char>| #[trigger] final(self).lookup(k) == match top.lookup(k) {
                Some(v) => Some(v),
                None => old(self).lookup(k),
            },
    {
        let ghost base = *self;
        let ghost te = top.entries();
        let n = top.len();
        let mut i: usize = 0;
        while i < n
            invariant
                n == te.len(),
                te == top.entries(),
                i <= n,
                self.wf(),
                forall|k: Seq<char>| #[trigger] self.lookup(k) == match lookup_in(te.take(i as int), k) {
                    Some(v) => Some(v),
                    None => base.lookup(k),
                },
            decreases n - i,
        {
            let key = top.key_at(i).clone();
            let value = top.value_at(i).clone();
            let ghost before = *self;
            self.insert(key, value);
            proof {
                let pre = te.take(i as int);
                let post = te.take(i + 1);
                assert(post.drop_last() =~= pre);
                assert(post.last() == te[i as int]);
                assert forall|k: Seq<char>| #[trigger] self.lookup(k) == match lookup_in(post, k) {
                    Some(v) => Some(v),
                    None => base.lookup(k),
                } by {
                    assert(before.lookup(k) == match lookup_in(pre, k) {
                        Some(v) => Some(v),
                        None => base.lookup(k),
                    });
                    if k == te[i as int].0@ {
                        assert(index_in(post, k) == i);
                        assert(lookup_in(post, k) == Some(te[i as int].1));
                    } else {
                        assert(index_in(post, k) == index_in(pre, k));
                        lemma_index_in(pre, k);
                        if index_in(pre, k) >= 0 {
                            assert(post[index_in(pre, k)] == pre[index_in(pre, k)]);
                        }
                        assert(lookup_in(post, k) == lookup_in(pre, k));
                    }
                }
            }
            i = i + 1;
        }
        proof {
            assert(te.take(n as int) =~= te);
        }
    }

    /// A copy of the map.
    pub fn duplicate(&self) -> (r: Self)
        requires
            self.wf(),
        ensures
            r.wf(),
            r.texts() == self.texts(),
            r.entries() == self.entries(),
    {
        let mut entries: Vec<(String, String)> = Vec::new();
        let mut i: usize = 0;
        while i < self.entries.len()
            invariant
                i <= self.entries@.len(),
                entries@ == self.entries@.take(i as int),
            decreases self.entries@.len() - i,
        {
            let k = self.entries[i].0.clone();
            let v = self.entries[i].1.clone();
            entries.push((k, v));
            proof {
                assert(entries@ =~= self.entries@.take(i + 1));
            }
            i = i + 1;
        }
        proof {
            assert(self.entries@.take(self.entries@.len() as int) =~= self.entries@);
        }
        TextMap { entries }
    }
}

} // verus!
