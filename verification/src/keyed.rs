//! A map from string keys to values, kept as a list of entries in insertion order.
use vstd::prelude::*;

verus! {

/// Values that can be copied with their view kept.
pub trait Snapshot: View + Sized {
    /// A copy of `self` with the same view.
    fn snapshot(&self) -> (r: Self)
        ensures
            r@ == self@,
    ;
}

impl Snapshot for String {
    fn snapshot(&self) -> (r: String) {
        self.clone()
    }
}

impl Snapshot for Vec<String> {
    fn snapshot(&self) -> (r: Vec<String>) {
        let r = self.clone();
        assert(r@ =~= self@);
        r
    }
}

/// String-keyed entries in insertion order; no key occurs twice.
pub struct KeyedVec<V> {
    pub entries: Vec<(String, V)>,
}

/// The keys of `s` are pairwise distinct.
pub open spec fn keys_distinct<V>(s: Seq<(String, V)>) -> bool {
    forall|i: int, j: int| 0 <= i < j < s.len() ==> #[trigger] s[i].0@ != #[trigger] s[j].0@
}

/// Some entry of `s` has key `k`.
pub open spec fn has_key<V>(s: Seq<(String, V)>, k: Seq<char>) -> bool {
    exists|i: int| 0 <= i < s.len() && #[trigger] s[i].0@ == k
}

/// The position of the entry of `s` with key `k`.
pub open spec fn key_index<V>(s: Seq<(String, V)>, k: Seq<char>) -> int {
    choose|i: int| 0 <= i < s.len() && #[trigger] s[i].0@ == k
}

/// The map from the keys of `s` to the views of their values.
pub open spec fn entries_map<V: View>(s: Seq<(String, V)>) -> Map<Seq<char>, V::V> {
    Map::new(|k: Seq<char>| has_key(s, k), |k: Seq<char>| s[key_index(s, k)].1@)
}

/// The entry at position `i` is what the map gives for its key.
pub proof fn lemma_entry_in_map<V: View>(s: Seq<(String, V)>, i: int)
    requires
        keys_distinct(s),
        0 <= i < s.len(),
    ensures
        entries_map(s).contains_key(s[i].0@),
        entries_map(s)[s[i].0@] == s[i].1@,
        key_index(s, s[i].0@) == i,
{
    let k = s[i].0@;
    assert(has_key(s, k));
    let j = key_index(s, k);
    if j != i {
        if j < i {
            assert(s[j].0@ != s[i].0@);
        } else {
            assert(s[i].0@ != s[j].0@);
        }
    }
}

/// Replacing the value of the entry at `i` replaces the value of its key in the map.
pub proof fn lemma_update_map<V: View>(s: Seq<(String, V)>, i: int, e: (String, V))
    requires
        keys_distinct(s),
        0 <= i < s.len(),
        e.0@ == s[i].0@,
    ensures
        keys_distinct(s.update(i, e)),
        entries_map(s.update(i, e)) == entries_map(s).insert(e.0@, e.1@),
{
    let t = s.update(i, e);
    assert forall|a: int, b: int| 0 <= a < b < t.len() implies #[trigger] t[a].0@ != #[trigger] t[b].0@ by {
        assert(s[a].0@ != s[b].0@);
    }
    lemma_entry_in_map(t, i);
    assert forall|k: Seq<char>| #[trigger] has_key(t, k) <==> has_key(s, k) by {
        if has_key(t, k) {
            let j = choose|j: int| 0 <= j < t.len() && #[trigger] t[j].0@ == k;
            assert(s[j].0@ == k);
        }
        if has_key(s, k) {
            let j = choose|j: int| 0 <= j < s.len() && #[trigger] s[j].0@ == k;
            assert(t[j].0@ == k);
        }
    }
    assert forall|k: Seq<char>| has_key(s, k) && k != e.0@ implies entries_map(t)[k] == entries_map(s)[k] by {
        let j = choose|j: int| 0 <= j < s.len() && #[trigger] s[j].0@ == k;
        lemma_entry_in_map(s, j);
        assert(t[j] == s[j]);
        lemma_entry_in_map(t, j);
    }
    assert(entries_map(t) =~= entries_map(s).insert(e.0@, e.1@));
}

/// Appending an entry with a new key adds that key to the map.
pub proof fn lemma_push_map<V: View>(s: Seq<(String, V)>, e: (String, V))
    requires
        keys_distinct(s),
        !has_key(s, e.0@),
    ensures
        keys_distinct(s.push(e)),
        entries_map(s.push(e)) == entries_map(s).insert(e.0@, e.1@),
{
    let t = s.push(e);
    assert forall|a: int, b: int| 0 <= a < b < t.len() implies #[trigger] t[a].0@ != #[trigger] t[b].0@ by {
        if b == s.len() {
            if s[a].0@ == e.0@ {
                assert(has_key(s, e.0@));
            }
        } else {
            assert(s[a].0@ != s[b].0@);
        }
    }
    lemma_entry_in_map(t, s.len() as int);
    assert forall|k: Seq<char>| #[trigger] has_key(t, k) <==> (has_key(s, k) || k == e.0@) by {
        if has_key(t, k) {
            let j = choose|j: int| 0 <= j < t.len() && #[trigger] t[j].0@ == k;
            if j < s.len() {
                assert(s[j].0@ == k);
            }
        }
        if has_key(s, k) {
            let j = choose|j: int| 0 <= j < s.len() && #[trigger] s[j].0@ == k;
            assert(t[j].0@ == k);
        }
    }
    assert forall|k: Seq<char>| has_key(s, k) implies entries_map(t)[k] == entries_map(s)[k] by {
        let j = choose|j: int| 0 <= j < s.len() && #[trigger] s[j].0@ == k;
        lemma_entry_in_map(s, j);
        assert(t[j] == s[j]);
        lemma_entry_in_map(t, j);
    }
    assert(entries_map(t) =~= entries_map(s).insert(e.0@, e.1@));
}

/// Removing the entry at `i` removes its key from the map.
pub proof fn lemma_remove_map<V: View>(s: Seq<(String, V)>, i: int)
    requires
        keys_distinct(s),
        0 <= i < s.len(),
    ensures
        keys_distinct(s.remove(i)),
        entries_map(s.remove(i)) == entries_map(s).remove(s[i].0@),
{
    let t = s.remove(i);
    let k0 = s[i].0@;
    assert forall|a: int, b: int| 0 <= a < b < t.len() implies #[trigger] t[a].0@ != #[trigger] t[b].0@ by {
        let a2 = if a < i { a } else { a + 1 };
        let b2 = if b < i { b } else { b + 1 };
        assert(t[a] == s[a2]);
        assert(t[b] == s[b2]);
        assert(s[a2].0@ != s[b2].0@);
    }
    assert forall|k: Seq<char>| #[trigger] has_key(t, k) <==> (has_key(s, k) && k != k0) by {
        if has_key(t, k) {
            let j = choose|j: int| 0 <= j < t.len() && #[trigger] t[j].0@ == k;
            let j2 = if j < i { j } else { j + 1 };
            assert(t[j] == s[j2]);
            assert(s[j2].0@ == k);
            if k == k0 {
                if j2 < i {
                    assert(s[j2].0@ != s[i].0@);
                } else {
                    assert(s[i].0@ != s[j2].0@);
                }
            }
        }
        if has_key(s, k) && k != k0 {
            let j = choose|j: int| 0 <= j < s.len() && #[trigger] s[j].0@ == k;
            let j2 = if j < i { j } else { j - 1 };
            assert(j != i);
            assert(t[j2] == s[j]);
            assert(t[j2].0@ == k);
        }
    }
    assert forall|k: Seq<char>| has_key(s, k) && k != k0 implies entries_map(t)[k] == entries_map(s)[k] by {
        let j = choose|j: int| 0 <= j < s.len() && #[trigger] s[j].0@ == k;
        lemma_entry_in_map(s, j);
        assert(j != i);
        let j2 = if j < i { j } else { j - 1 };
        assert(t[j2] == s[j]);
        lemma_entry_in_map(t, j2);
    }
    assert(entries_map(t) =~= entries_map(s).remove(k0));
}

impl<V: View> KeyedVec<V> {
    /// No key occurs twice.
    pub open spec fn wf(&self) -> bool {
        keys_distinct(self.entries@)
    }

    /// The entries as pairs of views, in insertion order.
    pub open spec fn pairs(&self) -> Seq<(Seq<char>, V::V)> {
        self.entries@.map_values(|e: (String, V)| (e.0@, e.1@))
    }

    /// The views of the values, in insertion order.
    pub open spec fn values(&self) -> Seq<V::V> {
        self.entries@.map_values(|e: (String, V)| e.1@)
    }

    /// The map from keys to the views of their values.
    pub open spec fn as_map(&self) -> Map<Seq<char>, V::V> {
        entries_map(self.entries@)
    }

    /// An empty map.
    pub fn new() -> (m: Self)
        ensures
            m.wf(),
            m.entries@.len() == 0,
            m.as_map() == Map::<Seq<char>, V::V>::empty(),
    {
        let m = KeyedVec { entries: Vec::new() };
        assert(m.as_map() =~= Map::<Seq<char>, V::V>::empty());
        m
    }

    /// The position of the entry with key `key`, if any.
    pub fn find(&self, key: &str) -> (r: Option<usize>)
        requires
            self.wf(),
        ensures
            match r {
                Some(i) => i < self.entries@.len() && self.entries@[i as int].0@ == key@,
                None => !self.as_map().contains_key(key@),
            },
    {
        let k = key.to_owned();
        let mut i: usize = 0;
        while i < self.entries.len()
            invariant
                k@ == key@,
                i <= self.entries@.len(),
                forall|j: int| 0 <= j < i ==> self.entries@[j].0@ != key@,
            decreases self.entries@.len() - i,
        {
            if self.entries[i].0 == k {
                return Some(i);
            }
            i = i + 1;
        }
        None
    }

    /// Whether the map has key `key`.
    pub fn contains_key(&self, key: &str) -> (b: bool)
        requires
            self.wf(),
        ensures
            b == self.as_map().contains_key(key@),
    {
        match self.find(key) {
            Some(i) => {
                proof { lemma_entry_in_map(self.entries@, i as int); }
                true
            },
            None => false,
        }
    }
}

impl<V: Snapshot> KeyedVec<V> {
    /// A copy of the value stored under `key`, if any.
    pub fn get(&self, key: &str) -> (r: Option<V>)
        requires
            self.wf(),
        ensures
            match r {
                Some(v) => self.as_map().contains_key(key@) && v@ == self.as_map()[key@],
                None => !self.as_map().contains_key(key@),
            },
    {
        match self.find(key) {
            Some(i) => {
                proof { lemma_entry_in_map(self.entries@, i as int); }
                Some(self.entries[i].1.snapshot())
            },
            None => None,
        }
    }

    /// Copies of the values, in insertion order.
    pub fn values_vec(&self) -> (r: Vec<V>)
        ensures
            r@.map_values(|v: V| v@) == self.values(),
    {
        let mut r: Vec<V> = Vec::new();
        for i in 0..self.entries.len()
            invariant
                r@.map_values(|v: V| v@) == self.values().take(i as int),
        {
            let ghost prev = r@;
            let v = self.entries[i].1.snapshot();
            r.push(v);
            assert(r@ == prev.push(v));
            assert(self.values().take(i + 1) =~= self.values().take(i as int).push(self.entries@[i as int].1@));
            assert(r@.map_values(|v: V| v@) =~= prev.map_values(|v: V| v@).push(v@));
        }
        assert(self.values().take(self.entries@.len() as int) =~= self.values());
        r
    }

    /// Stores `value` under `key`: an existing entry keeps its position, a new one goes last.
    pub fn insert(&mut self, key: &str, value: V)
        requires
            old(self).wf(),
        ensures
            final(self).wf(),
            final(self).as_map() == old(self).as_map().insert(key@, value@),
            old(self).as_map().contains_key(key@) ==> final(self).values() == old(self).values().update(
                key_index(old(self).entries@, key@),
                value@,
            ),
            !old(self).as_map().contains_key(key@) ==> final(self).values() == old(self).values().push(
                value@,
            ),
    {
        let ghost old_entries = self.entries@;
        match self.find(key) {
            Some(i) => {
                proof { lemma_entry_in_map(old_entries, i as int); }
                let k = self.entries[i].0.snapshot();
                let ghost e = (k, value);
                self.entries.set(i, (k, value));
                proof {
                    assert(self.entries@ == old_entries.update(i as int, e));
                    lemma_update_map(old_entries, i as int, e);
                }
                assert(self.values() =~= old_entries.map_values(|e: (String, V)| e.1@).update(
                    i as int,
                    value@,
                ));
            },
            None => {
                let k = key.to_owned();
                let ghost e = (k, value);
                self.entries.push((k, value));
                proof {
                    assert(self.entries@ == old_entries.push(e));
                    lemma_push_map(old_entries, e);
                }
                assert(self.values() =~= old_entries.map_values(|e: (String, V)| e.1@).push(value@));
            },
        }
    }

    /// Removes the entry with key `key`; says whether there was one. The other entries keep
    /// their order.
    pub fn remove(&mut self, key: &str) -> (removed: bool)
        requires
            old(self).wf(),
        ensures
            final(self).wf(),
            removed == old(self).as_map().contains_key(key@),
            final(self).as_map() == old(self).as_map().remove(key@),
            removed ==> final(self).values() == old(self).values().remove(
                key_index(old(self).entries@, key@),
            ),
            !removed ==> final(self).values() == old(self).values(),
    {
        let ghost old_entries = self.entries@;
        match self.find(key) {
            Some(i) => {
                proof { lemma_entry_in_map(old_entries, i as int); }
                let _ = self.entries.remove(i);
                proof { lemma_remove_map(old_entries, i as int); }
                assert(self.values() =~= old_entries.map_values(|e: (String, V)| e.1@).remove(
                    i as int,
                ));
                true
            },
            None => {
                assert(self.as_map() =~= old(self).as_map().remove(key@));
                false
            },
        }
    }
}

} // verus!
