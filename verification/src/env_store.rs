//! The environment store: the shell's model of the process environment,
//! an association list with unique keys viewed as a map from variable name
//! to value. The surrounding binary mirrors every mutation into the real
//! process environment so spawned children inherit it.

use vstd::prelude::*;

use crate::text::str_eq;

verus! {

/// The map a sequence of entries denotes; a later entry wins over an earlier
/// one with the same key.
pub open spec fn entries_map(s: Seq<(String, String)>) -> Map<Seq<char>, Seq<char>>
    decreases s.len(),
{
    if s.len() == 0 {
        Map::empty()
    } else {
        entries_map(s.drop_last()).insert(s.last().0@, s.last().1@)
    }
}

pub proof fn lemma_entries_map_domain(s: Seq<(String, String)>, k: Seq<char>)
    ensures
        entries_map(s).contains_key(k) <==> exists|i: int| 0 <= i < s.len() && s[i].0@ == k,
    decreases s.len(),
{
    if s.len() > 0 {
        lemma_entries_map_domain(s.drop_last(), k);
        if s.last().0@ == k {
            assert(s[s.len() - 1].0@ == k);
        } else if entries_map(s).contains_key(k) {
            let i = choose|i: int| 0 <= i < s.drop_last().len() && s.drop_last()[i].0@ == k;
            assert(s[i].0@ == k);
        } else {
            assert forall|i: int| 0 <= i < s.len() implies s[i].0@ != k by {
                if i < s.len() - 1 {
                    assert(s.drop_last()[i] == s[i]);
                }
            }
        }
    }
}

pub proof fn lemma_entries_map_value(s: Seq<(String, String)>, i: int)
    requires
        0 <= i < s.len(),
        forall|p: int, q: int| 0 <= p < q < s.len() ==> s[p].0@ != s[q].0@,
    ensures
        entries_map(s).contains_key(s[i].0@),
        entries_map(s)[s[i].0@] == s[i].1@,
    decreases s.len(),
{
    lemma_entries_map_domain(s, s[i].0@);
    if i < s.len() - 1 {
        assert(s.last().0@ != s[i].0@);
        assert(s.drop_last()[i] == s[i]);
        lemma_entries_map_value(s.drop_last(), i);
    }
}

/// The shell's variable bindings.
pub struct EnvStore {
    pub entries: Vec<(String, String)>,
}

impl View for EnvStore {
    type V = Map<Seq<char>, Seq<char>>;

    open spec fn view(&self) -> Map<Seq<char>, Seq<char>> {
        entries_map(self.entries@)
    }
}

impl EnvStore {
    /// Keys are stored at most once, so the association list and its map
    /// view agree entry by entry.
    pub open spec fn wf(&self) -> bool {
        forall|p: int, q: int|
            0 <= p < q < self.entries@.len() ==> self.entries@[p].0@ != self.entries@[q].0@
    }

    pub fn new() -> (r: EnvStore)
        ensures
            r.wf(),
            r@ == Map::<Seq<char>, Seq<char>>::empty(),
    {
        EnvStore { entries: Vec::new() }
    }

    /// Index of the entry holding `key`, if any.
    fn find(&self, key: &str) -> (r: Option<usize>)
        ensures
            match r {
                Some(i) => i < self.entries@.len() && self.entries@[i as int].0@ == key@,
                None => forall|j: int| 0 <= j < self.entries@.len() ==> self.entries@[j].0@ != key@,
            },
    {
        let mut i: usize = 0;
        while i < self.entries.len()
            invariant
                i <= self.entries@.len(),
                forall|j: int| 0 <= j < i ==> self.entries@[j].0@ != key@,
            decreases self.entries@.len() - i,
        {
            if str_eq(self.entries[i].0.as_str(), key) {
                return Some(i);
            }
            i += 1;
        }
        None
    }

    /// Look a variable up, as the expander and `cd`'s `HOME` fallback do.
    pub fn get(&self, key: &str) -> (r: Option<&String>)
        requires
            self.wf(),
        ensures
            match r {
                Some(v) => self@.contains_key(key@) && v@ == self@[key@],
                None => !self@.contains_key(key@),
            },
    {
        proof {
            lemma_entries_map_domain(self.entries@, key@);
        }
        match self.find(key) {
            Some(i) => {
                proof {
                    lemma_entries_map_value(self.entries@, i as int);
                }
                Some(&self.entries[i].1)
            },
            None => None,
        }
    }

    /// Bind `key` to `value`; a later binding replaces an earlier one.
    pub fn set(&mut self, key: String, value: String)
        requires
            old(self).wf(),
        ensures
            final(self).wf(),
            final(self)@ == old(self)@.insert(key@, value@),
    {
        let found = self.find(key.as_str());
        match found {
            Some(i) => {
                proof {
                    lemma_entries_map_remove(self.entries@, i as int);
                }
                let ghost before = self.entries@;
                self.entries.remove(i);
                proof {
                    assert forall|p: int, q: int|
                        0 <= p < q < self.entries@.len() implies self.entries@[p].0@
                        != self.entries@[q].0@ by {
                        assert(self.entries@[p] == if p < i as int {
                            before[p]
                        } else {
                            before[p + 1]
                        });
                        assert(self.entries@[q] == if q < i as int {
                            before[q]
                        } else {
                            before[q + 1]
                        });
                    }
                    assert forall|j: int|
                        0 <= j < self.entries@.len() implies self.entries@[j].0@ != key@ by {
                        assert(self.entries@[j] == if j < i as int {
                            before[j]
                        } else {
                            before[j + 1]
                        });
                    }
                    lemma_entries_map_domain(self.entries@, key@);
                }
                let ghost mid = entries_map(self.entries@);
                self.entries.push((key, value));
                proof {
                    assert(self.entries@.drop_last() =~= old(self).entries@.remove(i as int));
                    assert(entries_map(self.entries@) =~= old(self)@.insert(key@, value@));
                }
            },
            None => {
                proof {
                    lemma_entries_map_domain(self.entries@, key@);
                }
                self.entries.push((key, value));
                proof {
                    assert(self.entries@.drop_last() =~= old(self).entries@);
                }
            },
        }
    }

    /// Drop the binding of `key`; removing an absent variable is a no-op.
    pub fn remove(&mut self, key: &str)
        requires
            old(self).wf(),
        ensures
            final(self).wf(),
            final(self)@ == old(self)@.remove(key@),
    {
        let found = self.find(key);
        match found {
            Some(i) => {
                proof {
                    lemma_entries_map_remove(self.entries@, i as int);
                }
                let ghost before = self.entries@;
                self.entries.remove(i);
                proof {
                    assert forall|p: int, q: int|
                        0 <= p < q < self.entries@.len() implies self.entries@[p].0@
                        != self.entries@[q].0@ by {
                        assert(self.entries@[p] == if p < i as int {
                            before[p]
                        } else {
                            before[p + 1]
                        });
                        assert(self.entries@[q] == if q < i as int {
                            before[q]
                        } else {
                            before[q + 1]
                        });
                    }
                }
            },
            None => {
                proof {
                    lemma_entries_map_domain(self.entries@, key@);
                    assert(old(self)@.remove(key@) =~= old(self)@);
                }
            },
        }
    }
}

/// Removing the unique entry of a key removes that key from the map view.
pub proof fn lemma_entries_map_remove(s: Seq<(String, String)>, i: int)
    requires
        0 <= i < s.len(),
        forall|p: int, q: int| 0 <= p < q < s.len() ==> s[p].0@ != s[q].0@,
    ensures
        entries_map(s.remove(i)) == entries_map(s).remove(s[i].0@),
    decreases s.len(),
{
    let k = s[i].0@;
    if i == s.len() - 1 {
        assert(s.remove(i) =~= s.drop_last());
        lemma_entries_map_domain(s.drop_last(), k);
        assert forall|j: int| 0 <= j < s.drop_last().len() implies s.drop_last()[j].0@ != k by {
            assert(s.drop_last()[j] == s[j]);
        }
        assert(!entries_map(s.drop_last()).contains_key(k));
        assert(entries_map(s.drop_last()) =~= entries_map(s.drop_last()).insert(k, s[i].1@).remove(
            k,
        ));
    } else {
        let t = s.drop_last();
        lemma_entries_map_remove(t, i);
        assert(s.remove(i).drop_last() =~= t.remove(i));
        assert(s.remove(i).last() == s.last());
        assert(entries_map(s.remove(i)) == entries_map(t.remove(i)).insert(
            s.last().0@,
            s.last().1@,
        ));
        assert(s.last().0@ != k);
        assert(entries_map(t).remove(k).insert(s.last().0@, s.last().1@) =~= entries_map(t).insert(
            s.last().0@,
            s.last().1@,
        ).remove(k));
    }
}

} // verus!
