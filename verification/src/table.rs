//! A table of values keyed by strings, each key at most once, kept in the
//! order the keys were first inserted. It holds the terminal sessions and the
//! abort handles of the running chats.
use vstd::prelude::*;
use crate::text::str_eq;

verus! {

/// No key occurs twice.
pub open spec fn keys_unique<T>(s: Seq<(Seq<char>, T)>) -> bool {
    forall|i: int, j: int|
        0 <= i < j < s.len() ==> (#[trigger] s[i]).0 != (#[trigger] s[j]).0
}

/// The table holds an entry with key `k`.
pub open spec fn has_key<T>(s: Seq<(Seq<char>, T)>, k: Seq<char>) -> bool {
    exists|i: int| 0 <= i < s.len() && (#[trigger] s[i]).0 == k
}

/// A table of values keyed by strings.
pub struct KeyedTable<T> {
    entries: Vec<(String, T)>,
}

impl<T> View for KeyedTable<T> {
    type V = Seq<(Seq<char>, T)>;

    closed spec fn view(&self) -> Seq<(Seq<char>, T)> {
        self.entries@.map_values(|e: (String, T)| (e.0@, e.1))
    }
}

impl<T> KeyedTable<T> {
    #[verifier::type_invariant]
    closed spec fn unique_keys(self) -> bool {
        keys_unique(self@)
    }

    /// An empty table.
    pub fn new() -> (t: Self)
        ensures
            t@ == Seq::<(Seq<char>, T)>::empty(),
            keys_unique(t@),
    {
        let t = KeyedTable { entries: Vec::new() };
        assert(t@ =~= Seq::<(Seq<char>, T)>::empty());
        t
    }

    /// The number of entries.
    pub fn len(&self) -> (n: usize)
        ensures
            n == self@.len(),
    {
        self.entries.len()
    }

    /// The position of the entry with key `k`, if there is one.
    pub fn find(&self, k: &str) -> (r: Option<usize>)
        ensures
            keys_unique(self@),
            match r {
                None => !has_key(self@, k@),
                Some(i) => i < self@.len() && self@[i as int].0 == k@,
            },
    {
        proof {
            use_type_invariant(self);
        }
        let n = self.entries.len();
        for i in 0..n
            invariant
                n == self@.len(),
                n == self.entries@.len(),
                keys_unique(self@),
                forall|j: int| 0 <= j < i ==> self@[j].0 != k@,
        {
            if str_eq(self.entries[i].0.as_str(), k) {
                return Some(i);
            }
        }
        None
    }

    /// The key and value at position `i`.
    pub fn entry_at(&self, i: usize) -> (r: (&str, &T))
        requires
            i < self@.len(),
        ensures
            r.0@ == self@[i as int].0,
            *r.1 == self@[i as int].1,
    {
        let e = &self.entries[i];
        (e.0.as_str(), &e.1)
    }

    /// The value kept under `k`, if there is one.
    pub fn get(&self, k: &str) -> (r: Option<&T>)
        ensures
            match r {
                None => !has_key(self@, k@),
                Some(v) => exists|i: int| 0 <= i < self@.len() && self@[i] == (k@, *v),
            },
    {
        match self.find(k) {
            None => None,
            Some(i) => {
                let (_, v) = self.entry_at(i);
                Some(v)
            },
        }
    }

    /// Keeps `v` under `k`; a value already kept under `k` is replaced in
    /// place and returned, otherwise the entry is added at the end.
    pub fn insert(&mut self, k: String, v: T) -> (r: Option<T>)
        ensures
            keys_unique(final(self)@),
            match r {
                None => !has_key(old(self)@, k@) && final(self)@ == old(self)@.push((k@, v)),
                Some(prev) => exists|i: int|
                    0 <= i < old(self)@.len() && old(self)@[i].0 == k@ && old(self)@[i].1 == prev
                        && final(self)@ == old(self)@.update(i, (k@, v)),
            },
    {
        proof {
            use_type_invariant(&*self);
        }
        let found = self.find(k.as_str());
        let mut entries: Vec<(String, T)> = Vec::new();
        std::mem::swap(&mut entries, &mut self.entries);
        let ghost s = entries@.map_values(|e: (String, T)| (e.0@, e.1));
        match found {
            None => {
                let ghost kv = k@;
                entries.push((k, v));
                assert(entries@.map_values(|e: (String, T)| (e.0@, e.1)) =~= s.push((kv, v)));
                self.entries = entries;
                None
            },
            Some(i) => {
                let ghost kv = k@;
                let old_entry = entries.remove(i);
                entries.insert(i, (k, v));
                assert(entries@.map_values(|e: (String, T)| (e.0@, e.1)) =~= s.update(
                    i as int,
                    (kv, v),
                ));
                assert(keys_unique(s.update(i as int, (kv, v)))) by {
                    assert forall|a: int, b: int|
                        0 <= a < b < s.len() implies (#[trigger] s.update(i as int, (kv, v))[a]).0
                        != (#[trigger] s.update(i as int, (kv, v))[b]).0 by {
                        assert(s[a].0 != s[b].0);
                    }
                }
                self.entries = entries;
                Some(old_entry.1)
            },
        }
    }

    /// Takes out the value kept under `k`, if there is one; the other entries
    /// keep their order.
    pub fn remove(&mut self, k: &str) -> (r: Option<T>)
        ensures
            keys_unique(final(self)@),
            match r {
                None => !has_key(old(self)@, k@) && final(self)@ == old(self)@,
                Some(prev) => exists|i: int|
                    0 <= i < old(self)@.len() && old(self)@[i].0 == k@ && old(self)@[i].1 == prev
                        && final(self)@ == old(self)@.remove(i),
            },
    {
        proof {
            use_type_invariant(&*self);
        }
        match self.find(k) {
            None => None,
            Some(i) => {
                let mut entries: Vec<(String, T)> = Vec::new();
                std::mem::swap(&mut entries, &mut self.entries);
                let ghost s = entries@.map_values(|e: (String, T)| (e.0@, e.1));
                let old_entry = entries.remove(i);
                assert(entries@.map_values(|e: (String, T)| (e.0@, e.1)) =~= s.remove(i as int));
                assert(keys_unique(s.remove(i as int))) by {
                    assert forall|a: int, b: int|
                        0 <= a < b < s.len() - 1 implies (#[trigger] s.remove(i as int)[a]).0
                        != (#[trigger] s.remove(i as int)[b]).0 by {
                        let a2 = if a < i {
                            a
                        } else {
                            a + 1
                        };
                        let b2 = if b < i {
                            b
                        } else {
                            b + 1
                        };
                        assert(s.remove(i as int)[a] == s[a2]);
                        assert(s.remove(i as int)[b] == s[b2]);
                        assert(s[a2].0 != s[b2].0);
                    }
                }
                self.entries = entries;
                Some(old_entry.1)
            },
        }
    }
}

} // verus!
