use vstd::prelude::*;
use crate::text::str_eq;

verus! {

/// A small map from names to values, kept as a list of distinct names in
/// insertion order.
#[derive(Debug)]
pub struct NameMap<V> {
    pub entries: Vec<(String, V)>,
}

pub open spec fn has_key<V>(s: Seq<(String, V)>, k: Seq<char>) -> bool {
    exists|i: int| 0 <= i < s.len() && (#[trigger] s[i]).0@ == k
}

pub open spec fn distinct_keys<V>(s: Seq<(String, V)>) -> bool {
    forall|i: int, j: int| 0 <= i < s.len() && 0 <= j < s.len() && i != j ==> (#[trigger] s[i]).0@
        != (#[trigger] s[j]).0@
}

/// The map that a list of distinct names describes.
pub open spec fn entries_map<V>(s: Seq<(String, V)>) -> Map<Seq<char>, V> {
    Map::new(
        |k: Seq<char>| has_key(s, k),
        |k: Seq<char>| s[choose|i: int| 0 <= i < s.len() && (#[trigger] s[i]).0@ == k].1,
    )
}

proof fn lemma_entry_value<V>(s: Seq<(String, V)>, i: int)
    requires
        distinct_keys(s),
        0 <= i < s.len(),
    ensures
        entries_map(s).contains_key(s[i].0@),
        entries_map(s)[s[i].0@] == s[i].1,
{
    let k = s[i].0@;
    assert(has_key(s, k));
    let j = choose|j: int| 0 <= j < s.len() && (#[trigger] s[j]).0@ == k;
    assert(j == i);
}

impl<V: Copy> NameMap<V> {
    pub open spec fn wf(self) -> bool {
        distinct_keys(self.entries@)
    }

    pub open spec fn view(self) -> Map<Seq<char>, V> {
        entries_map(self.entries@)
    }

    pub fn new() -> (m: NameMap<V>)
        ensures
            m.wf(),
            m.view() == Map::<Seq<char>, V>::empty(),
            m.entries@.len() == 0,
    {
        let m = NameMap { entries: Vec::new() };
        assert(m.view() =~= Map::<Seq<char>, V>::empty());
        m
    }

    fn position(&self, name: &str) -> (r: Option<usize>)
        ensures
            r matches Some(i) ==> i < self.entries@.len() && self.entries@[i as int].0@ == name@,
            r is None ==> !has_key(self.entries@, name@),
    {
        let mut i: usize = 0;
        while i < self.entries.len()
            invariant
                i <= self.entries@.len(),
                forall|j: int| 0 <= j < i ==> (#[trigger] self.entries@[j]).0@ != name@,
            decreases self.entries@.len() - i,
        {
            if str_eq(self.entries[i].0.as_str(), name) {
                return Some(i);
            }
            i += 1;
        }
        None
    }

    /// The value stored under `name`.
    pub fn get(&self, name: &str) -> (r: Option<V>)
        requires
            self.wf(),
        ensures
            r == (if self.view().contains_key(name@) {
                Some(self.view()[name@])
            } else {
                None::<V>
            }),
    {
        match self.position(name) {
            Some(i) => {
                proof {
                    lemma_entry_value(self.entries@, i as int);
                }
                Some(self.entries[i].1)
            },
            None => None,
        }
    }

    pub fn contains(&self, name: &str) -> (r: bool)
        requires
            self.wf(),
        ensures
            r == self.view().contains_key(name@),
    {
        self.position(name).is_some()
    }

    /// Stores `value` under `name` and returns the value it replaces.
    pub fn insert(&mut self, name: &str, value: V) -> (r: Option<V>)
        requires
            old(self).wf(),
        ensures
            final(self).wf(),
            final(self).view() == old(self).view().insert(name@, value),
            r == (if old(self).view().contains_key(name@) {
                Some(old(self).view()[name@])
            } else {
                None::<V>
            }),
    {
        let ghost s0 = self.entries@;
        match self.position(name) {
            Some(i) => {
                proof {
                    lemma_entry_value(s0, i as int);
                }
                let previous = self.entries[i].1;
                let key = self.entries[i].0.clone();
                self.entries.set(i, (key, value));
                proof {
                    let s1 = self.entries@;
                    assert(distinct_keys(s1)) by {
                        assert forall|a: int, b: int|
                            0 <= a < s1.len() && 0 <= b < s1.len() && a != b implies (
                            #[trigger] s1[a]).0@ != (#[trigger] s1[b]).0@ by {
                            assert(s0[a].0@ == s1[a].0@);
                            assert(s0[b].0@ == s1[b].0@);
                        }
                    }
                    assert forall|k: Seq<char>| #[trigger] has_key(s1, k) == has_key(s0, k) by {
                        if has_key(s0, k) {
                            let j = choose|j: int| 0 <= j < s0.len() && (#[trigger] s0[j]).0@ == k;
                            assert(s1[j].0@ == k);
                        }
                        if has_key(s1, k) {
                            let j = choose|j: int| 0 <= j < s1.len() && (#[trigger] s1[j]).0@ == k;
                            assert(s0[j].0@ == k);
                        }
                    }
                    assert forall|k: Seq<char>| #[trigger] entries_map(s1).contains_key(k)
                        implies entries_map(s1)[k] == entries_map(s0).insert(name@, value)[k] by {
                        let j = choose|j: int| 0 <= j < s1.len() && (#[trigger] s1[j]).0@ == k;
                        lemma_entry_value(s1, j);
                        if j != i {
                            lemma_entry_value(s0, j);
                        }
                    }
                    assert(entries_map(s1) =~= entries_map(s0).insert(name@, value));
                }
                Some(previous)
            },
            None => {
                self.entries.push((name.to_owned(), value));
                proof {
                    let s1 = self.entries@;
                    let n = s0.len() as int;
                    assert(s1[n].0@ == name@);
                    assert(distinct_keys(s1)) by {
                        assert forall|a: int, b: int|
                            0 <= a < s1.len() && 0 <= b < s1.len() && a != b implies (
                            #[trigger] s1[a]).0@ != (#[trigger] s1[b]).0@ by {
                            if a < n && b < n {
                                assert(s0[a] == s1[a] && s0[b] == s1[b]);
                            } else if a < n {
                                assert(s0[a] == s1[a]);
                            } else {
                                assert(s0[b] == s1[b]);
                            }
                        }
                    }
                    assert forall|k: Seq<char>| #[trigger] has_key(s1, k) == (has_key(s0, k) || k
                        == name@) by {
                        if has_key(s0, k) {
                            let j = choose|j: int| 0 <= j < s0.len() && (#[trigger] s0[j]).0@ == k;
                            assert(s1[j] == s0[j]);
                        }
                        if has_key(s1, k) {
                            let j = choose|j: int| 0 <= j < s1.len() && (#[trigger] s1[j]).0@ == k;
                            if j < n {
                                assert(s0[j] == s1[j]);
                            }
                        }
                    }
                    assert forall|k: Seq<char>| #[trigger] entries_map(s1).contains_key(k)
                        implies entries_map(s1)[k] == entries_map(s0).insert(name@, value)[k] by {
                        let j = choose|j: int| 0 <= j < s1.len() && (#[trigger] s1[j]).0@ == k;
                        lemma_entry_value(s1, j);
                        if j < n {
                            assert(s0[j] == s1[j]);
                            lemma_entry_value(s0, j);
                        }
                    }
                    assert(entries_map(s1) =~= entries_map(s0).insert(name@, value));
                }
                None
            },
        }
    }

    /// Removes every entry.
    pub fn clear(&mut self)
        ensures
            final(self).wf(),
            final(self).view() == Map::<Seq<char>, V>::empty(),
    {
        self.entries = Vec::new();
        assert(self.view() =~= Map::<Seq<char>, V>::empty());
    }
}

} // verus!
