use vstd::prelude::*;

use crate::matcher::Matcher;

verus! {

/// Whether the `i`-th entry of `s` has key `k`.
pub open spec fn key_at<V>(s: Seq<(Matcher, V)>, k: Matcher, i: int) -> bool {
    0 <= i < s.len() && s[i].0 == k
}

/// No key occurs in two entries of `s`.
pub open spec fn unique_keys<V>(s: Seq<(Matcher, V)>) -> bool {
    forall|i: int, j: int| 0 <= i < s.len() && 0 <= j < s.len() && s[i].0 == s[j].0 ==> i == j
}

/// The map that a sequence of entries stands for.
pub open spec fn entries_to_map<V>(s: Seq<(Matcher, V)>) -> Map<Matcher, V> {
    Map::new(
        |k: Matcher| exists|i: int| key_at(s, k, i),
        |k: Matcher| s[choose|i: int| key_at(s, k, i)].1,
    )
}

/// In entries with unique keys, the map holds each entry's value at its key.
pub proof fn lemma_entries_to_map_at<V>(s: Seq<(Matcher, V)>, i: int)
    requires
        unique_keys(s),
        0 <= i < s.len(),
    ensures
        entries_to_map(s).contains_key(s[i].0),
        entries_to_map(s)[s[i].0] == s[i].1,
{
    assert(key_at(s, s[i].0, i));
    let j = choose|j: int| key_at(s, s[i].0, j);
    assert(j == i);
}

/// Putting a new value into an entry of entries with unique keys puts it at
/// that entry's key in the map, and keeps the keys unique.
pub proof fn lemma_entries_to_map_update<V>(s: Seq<(Matcher, V)>, i: int)
    requires
        unique_keys(s),
        0 <= i < s.len(),
    ensures
        forall|v: V|
            #![trigger s.update(i, (s[i].0, v))]
            unique_keys(s.update(i, (s[i].0, v))) && entries_to_map(s.update(i, (s[i].0, v)))
                == entries_to_map(s).insert(s[i].0, v),
{
    assert forall|v: V|
        #![trigger s.update(i, (s[i].0, v))]
        unique_keys(s.update(i, (s[i].0, v))) && entries_to_map(s.update(i, (s[i].0, v)))
            == entries_to_map(s).insert(s[i].0, v) by {
        let t = s.update(i, (s[i].0, v));
        assert(unique_keys(t));
        let k0 = s[i].0;
        assert forall|k: Matcher| #[trigger] entries_to_map(t).contains_key(k)
            == entries_to_map(s).insert(k0, v).contains_key(k) by {
            if k == k0 {
                assert(key_at(t, k, i));
            }
            if exists|j: int| key_at(s, k, j) {
                let j = choose|j: int| key_at(s, k, j);
                assert(key_at(t, k, j));
            }
            if exists|j: int| key_at(t, k, j) {
                let j = choose|j: int| key_at(t, k, j);
                assert(key_at(s, k, j));
            }
        }
        assert forall|k: Matcher| #[trigger] entries_to_map(t).contains_key(k) implies entries_to_map(
            t,
        )[k] == entries_to_map(s).insert(k0, v)[k] by {
            let j = choose|j: int| key_at(t, k, j);
            lemma_entries_to_map_at(t, j);
            if j != i {
                lemma_entries_to_map_at(s, j);
            }
        }
        assert(entries_to_map(t) =~= entries_to_map(s).insert(k0, v));
    }
}

/// Appending an entry whose key is new puts its value at its key, and keeps
/// the keys unique.
pub proof fn lemma_entries_to_map_push<V>(s: Seq<(Matcher, V)>, k: Matcher, v: V)
    requires
        unique_keys(s),
        !entries_to_map(s).contains_key(k),
    ensures
        unique_keys(s.push((k, v))),
        entries_to_map(s.push((k, v))) == entries_to_map(s).insert(k, v),
{
    let t = s.push((k, v));
    assert forall|j: int| 0 <= j < s.len() implies s[j].0 != k by {
        if s[j].0 == k {
            assert(key_at(s, k, j));
        }
    }
    assert(unique_keys(t));
    assert forall|q: Matcher| #[trigger] entries_to_map(t).contains_key(q)
        == entries_to_map(s).insert(k, v).contains_key(q) by {
        if q == k {
            assert(key_at(t, q, s.len() as int));
        }
        if exists|j: int| key_at(s, q, j) {
            let j = choose|j: int| key_at(s, q, j);
            assert(key_at(t, q, j));
        }
        if exists|j: int| key_at(t, q, j) {
            let j = choose|j: int| key_at(t, q, j);
            if j < s.len() {
                assert(key_at(s, q, j));
            }
        }
    }
    assert forall|q: Matcher| #[trigger] entries_to_map(t).contains_key(q) implies entries_to_map(
        t,
    )[q] == entries_to_map(s).insert(k, v)[q] by {
        let j = choose|j: int| key_at(t, q, j);
        lemma_entries_to_map_at(t, j);
        if j < s.len() {
            lemma_entries_to_map_at(s, j);
        }
    }
    assert(entries_to_map(t) =~= entries_to_map(s).insert(k, v));
}

/// Taking out an entry by moving the last one into its place removes its
/// key from the map, and keeps the keys unique.
pub proof fn lemma_entries_to_map_swap_remove<V>(s: Seq<(Matcher, V)>, i: int)
    requires
        unique_keys(s),
        0 <= i < s.len(),
    ensures
        unique_keys(s.update(i, s.last()).drop_last()),
        entries_to_map(s.update(i, s.last()).drop_last()) == entries_to_map(s).remove(s[i].0),
{
    let t = s.update(i, s.last()).drop_last();
    let k = s[i].0;
    let n = s.len() - 1;
    assert forall|a: int, b: int| 0 <= a < t.len() && 0 <= b < t.len() && t[a].0 == t[b].0 implies a
        == b by {
        let a2 = if a == i { n } else { a };
        let b2 = if b == i { n } else { b };
        assert(s[a2].0 == s[b2].0);
    }
    assert forall|q: Matcher| #[trigger] entries_to_map(t).contains_key(q)
        == entries_to_map(s).remove(k).contains_key(q) by {
        if exists|j: int| key_at(s, q, j) {
            let j = choose|j: int| key_at(s, q, j);
            if q != k {
                if j == n {
                    assert(key_at(t, q, i));
                } else {
                    assert(key_at(t, q, j));
                }
            }
        }
        if exists|j: int| key_at(t, q, j) {
            let j = choose|j: int| key_at(t, q, j);
            let j2 = if j == i { n } else { j };
            assert(key_at(s, q, j2));
            assert(j2 != i);
        }
    }
    assert forall|q: Matcher| #[trigger] entries_to_map(t).contains_key(q) implies entries_to_map(
        t,
    )[q] == entries_to_map(s).remove(k)[q] by {
        let j = choose|j: int| key_at(t, q, j);
        lemma_entries_to_map_at(t, j);
        let j2 = if j == i { n } else { j };
        lemma_entries_to_map_at(s, j2);
    }
    assert(entries_to_map(t) =~= entries_to_map(s).remove(k));
}

/// A finite map keyed by matchers, held as a vector of entries whose keys
/// are unique.
pub struct MatcherMap<V> {
    entries: Vec<(Matcher, V)>,
}

impl<V> View for MatcherMap<V> {
    type V = Map<Matcher, V>;

    closed spec fn view(&self) -> Map<Matcher, V> {
        entries_to_map(self.entries@)
    }
}

impl<V> MatcherMap<V> {
    /// Well-formedness: no matcher occurs in two entries.
    pub closed spec fn wf(&self) -> bool {
        unique_keys(self.entries@)
    }

    /// An empty map.
    pub fn new() -> (m: Self)
        ensures
            m.wf(),
            m@ == Map::<Matcher, V>::empty(),
    {
        let m = MatcherMap { entries: Vec::new() };
        assert(m@ =~= Map::<Matcher, V>::empty());
        m
    }

    /// The position of the entry with key `k`.
    fn find(&self, k: &Matcher) -> (r: Option<usize>)
        requires
            self.wf(),
        ensures
            match r {
                Some(i) => i < self.entries@.len() && self.entries@[i as int].0 == *k,
                None => !self@.contains_key(*k),
            },
    {
        let mut i: usize = 0;
        while i < self.entries.len()
            invariant
                i <= self.entries@.len(),
                forall|j: int| 0 <= j < i ==> self.entries@[j].0 != *k,
            decreases self.entries@.len() - i,
        {
            if self.entries[i].0 == *k {
                return Some(i);
            }
            i = i + 1;
        }
        None
    }

    /// Whether `k` has a value.
    pub fn contains_key(&self, k: &Matcher) -> (r: bool)
        requires
            self.wf(),
        ensures
            r == self@.contains_key(*k),
    {
        match self.find(k) {
            Some(i) => {
                proof {
                    lemma_entries_to_map_at(self.entries@, i as int);
                }
                true
            },
            None => false,
        }
    }

    /// The value at `k`, if any.
    pub fn get(&self, k: &Matcher) -> (r: Option<&V>)
        requires
            self.wf(),
        ensures
            match r {
                Some(v) => self@.contains_key(*k) && *v == self@[*k],
                None => !self@.contains_key(*k),
            },
    {
        match self.find(k) {
            Some(i) => {
                proof {
                    lemma_entries_to_map_at(self.entries@, i as int);
                }
                Some(&self.entries[i].1)
            },
            None => None,
        }
    }

    /// Sets the value at `k` to `v`.
    pub fn insert(&mut self, k: Matcher, v: V)
        requires
            old(self).wf(),
        ensures
            final(self).wf(),
            final(self)@ == old(self)@.insert(k, v),
    {
        match self.find(&k) {
            Some(i) => {
                proof {
                    lemma_entries_to_map_update(self.entries@, i as int);
                }
                let entry = &mut self.entries[i];
                entry.1 = v;
            },
            None => {
                proof {
                    lemma_entries_to_map_push(self.entries@, k, v);
                }
                self.entries.push((k, v));
            },
        }
    }

    /// Removes the value at `k` and returns it, if there was one.
    pub fn remove(&mut self, k: &Matcher) -> (r: Option<V>)
        requires
            old(self).wf(),
        ensures
            final(self).wf(),
            final(self)@ == old(self)@.remove(*k),
            match r {
                Some(v) => old(self)@.contains_key(*k) && v == old(self)@[*k],
                None => !old(self)@.contains_key(*k),
            },
    {
        match self.find(k) {
            Some(i) => {
                proof {
                    lemma_entries_to_map_at(self.entries@, i as int);
                    lemma_entries_to_map_swap_remove(self.entries@, i as int);
                }
                let entry = self.entries.swap_remove(i);
                Some(entry.1)
            },
            None => {
                assert(self@ =~= self@.remove(*k));
                None
            },
        }
    }

    /// Removes every entry.
    pub fn clear(&mut self)
        ensures
            final(self).wf(),
            final(self)@ == Map::<Matcher, V>::empty(),
    {
        self.entries.clear();
        assert(self@ =~= Map::<Matcher, V>::empty());
    }

    /// A mutable reference to the value at `k`, if any; what is written
    /// through it becomes the value at `k`.
    pub fn get_mut(&mut self, k: &Matcher) -> (r: Option<&mut V>)
        requires
            old(self).wf(),
        ensures
            final(self).wf(),
            match r {
                Some(v) => {
                    &&& old(self)@.contains_key(*k)
                    &&& *v == old(self)@[*k]
                    &&& final(self)@ == old(self)@.insert(*k, *final(v))
                },
                None => {
                    &&& !old(self)@.contains_key(*k)
                    &&& final(self)@ == old(self)@
                },
            },
    {
        match self.find(k) {
            Some(i) => {
                proof {
                    lemma_entries_to_map_at(self.entries@, i as int);
                    lemma_entries_to_map_update(self.entries@, i as int);
                }
                let entry = &mut self.entries[i];
                Some(&mut entry.1)
            },
            None => None,
        }
    }
}

} // verus!
