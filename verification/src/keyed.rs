//! Values keyed by text.

use vstd::prelude::*;

use crate::text::same;

verus! {

/// Whether a key occurs among the entries.
pub open spec fn has_key<T>(entries: Seq<(String, T)>, key: Seq<char>) -> bool {
    exists|i: int| 0 <= i < entries.len() && (#[trigger] entries[i]).0@ == key
}

/// The place of a key among the entries.
pub open spec fn place<T>(entries: Seq<(String, T)>, key: Seq<char>) -> int {
    choose|i: int| 0 <= i < entries.len() && (#[trigger] entries[i]).0@ == key
}

/// The map of the entries.
pub open spec fn map_of<T>(entries: Seq<(String, T)>) -> Map<Seq<char>, T> {
    Map::new(|key: Seq<char>| has_key(entries, key), |key: Seq<char>| entries[place(entries, key)].1)
}

/// Whether no key occurs twice.
pub open spec fn distinct<T>(entries: Seq<(String, T)>) -> bool {
    forall|i: int, j: int|
        0 <= i < j < entries.len() ==> (#[trigger] entries[i]).0@ != (#[trigger] entries[j]).0@
}

proof fn lemma_entry_in_map<T>(entries: Seq<(String, T)>, i: int)
    requires
        distinct(entries),
        0 <= i < entries.len(),
    ensures
        map_of(entries).dom().contains(entries[i].0@),
        map_of(entries)[entries[i].0@] == entries[i].1,
{
    let key = entries[i].0@;
    assert(has_key(entries, key));
    let j = place(entries, key);
    assert(0 <= j < entries.len() && entries[j].0@ == key);
    if j < i {
        assert(entries[j].0@ != entries[i].0@);
    } else if i < j {
        assert(entries[i].0@ != entries[j].0@);
    }
}

proof fn lemma_update_value<T>(entries: Seq<(String, T)>, i: int, value: T)
    requires
        distinct(entries),
        0 <= i < entries.len(),
    ensures
        distinct(entries.update(i, (entries[i].0, value))),
        map_of(entries.update(i, (entries[i].0, value))) == map_of(entries).insert(
            entries[i].0@,
            value,
        ),
{
    let after = entries.update(i, (entries[i].0, value));
    assert forall|a: int, b: int| 0 <= a < b < after.len() implies (#[trigger] after[a]).0@ != (
    #[trigger] after[b]).0@ by {
        assert(after[a].0 == entries[a].0 && after[b].0 == entries[b].0);
    }
    assert forall|k: Seq<char>| #[trigger] has_key(after, k) <==> has_key(entries, k) by {
        if has_key(after, k) {
            assert(entries[place(after, k)].0@ == k);
        }
        if has_key(entries, k) {
            assert(after[place(entries, k)].0@ == k);
        }
    }
    lemma_entry_in_map(entries, i);
    assert forall|k: Seq<char>| has_key(after, k) implies map_of(after)[k] == map_of(
        entries,
    ).insert(entries[i].0@, value)[k] by {
        let a = place(after, k);
        lemma_entry_in_map(after, a);
        lemma_entry_in_map(entries, a);
        if a != i {
            assert(after[a] == entries[a]);
            assert(k != entries[i].0@) by {
                if a < i {
                    assert(entries[a].0@ != entries[i].0@);
                } else {
                    assert(entries[i].0@ != entries[a].0@);
                }
            }
        }
    }
    assert(map_of(after) =~= map_of(entries).insert(entries[i].0@, value));
}

/// A map from texts to values, as a list of entries with distinct keys.
pub struct Keyed<T> {
    entries: Vec<(String, T)>,
}

impl<T> View for Keyed<T> {
    type V = Map<Seq<char>, T>;

    closed spec fn view(&self) -> Map<Seq<char>, T> {
        map_of(self.entries@)
    }
}

impl<T> Keyed<T> {
    pub closed spec fn wf(self) -> bool {
        distinct(self.entries@)
    }

    /// The entries in the order in which `key_at` and `value_at` give them.
    pub closed spec fn listed(self) -> Seq<(String, T)> {
        self.entries@
    }

    pub fn new() -> (r: Self)
        ensures
            r.wf(),
            r@ == Map::<Seq<char>, T>::empty(),
    {
        let r = Keyed { entries: Vec::new() };
        assert(r@ =~= Map::<Seq<char>, T>::empty());
        r
    }

    pub fn len(&self) -> (r: usize)
        ensures
            r == self.listed().len(),
    {
        self.entries.len()
    }

    pub fn is_empty(&self) -> (r: bool)
        requires
            self.wf(),
        ensures
            r == (self@ == Map::<Seq<char>, T>::empty()),
    {
        let r = self.entries.len() == 0;
        proof {
            if self.entries@.len() > 0 {
                lemma_entry_in_map(self.entries@, 0);
                assert(!Map::<Seq<char>, T>::empty().dom().contains(self.entries@[0].0@));
            } else {
                assert(self@ =~= Map::<Seq<char>, T>::empty());
            }
        }
        r
    }

    pub fn key_at(&self, i: usize) -> (r: &String)
        requires
            i < self.listed().len(),
        ensures
            *r == self.listed()[i as int].0,
    {
        &self.entries[i].0
    }

    pub fn value_at(&self, i: usize) -> (r: &T)
        requires
            i < self.listed().len(),
        ensures
            *r == self.listed()[i as int].1,
    {
        &self.entries[i].1
    }

    /// The entries are those of the map.
    pub proof fn lemma_listed(self)
        requires
            self.wf(),
        ensures
            distinct(self.listed()),
            forall|i: int|
                0 <= i < self.listed().len() ==> self@.dom().contains(
                    (#[trigger] self.listed()[i]).0@,
                ) && self@[self.listed()[i].0@] == self.listed()[i].1,
            forall|key: Seq<char>| #[trigger]
                self@.dom().contains(key) ==> has_key(self.listed(), key),
    {
        assert forall|i: int| 0 <= i < self.listed().len() implies self@.dom().contains(
            (#[trigger] self.listed()[i]).0@,
        ) && self@[self.listed()[i].0@] == self.listed()[i].1 by {
            lemma_entry_in_map(self.entries@, i);
        }
    }

    fn find(&self, key: &str) -> (r: Option<usize>)
        ensures
            match r {
                Some(i) => i < self.entries@.len() && self.entries@[i as int].0@ == key@,
                None => !has_key(self.entries@, key@),
            },
    {
        let mut i: usize = 0;
        while i < self.entries.len()
            invariant
                i <= self.entries@.len(),
                forall|k: int| 0 <= k < i ==> (#[trigger] self.entries@[k]).0@ != key@,
            decreases self.entries@.len() - i,
        {
            if same(self.entries[i].0.as_str(), key) {
                return Some(i);
            }
            i = i + 1;
        }
        None
    }

    pub fn get(&self, key: &str) -> (r: Option<&T>)
        requires
            self.wf(),
        ensures
            match r {
                Some(v) => self@.dom().contains(key@) && *v == self@[key@],
                None => !self@.dom().contains(key@),
            },
    {
        match self.find(key) {
            Some(i) => {
                proof {
                    lemma_entry_in_map(self.entries@, i as int);
                }
                Some(&self.entries[i].1)
            },
            None => None,
        }
    }

    /// Takes out the value under a key.
    pub fn remove(&mut self, key: &str) -> (r: Option<T>)
        requires
            old(self).wf(),
        ensures
            final(self).wf(),
            final(self)@ == old(self)@.remove(key@),
            match r {
                Some(v) => old(self)@.dom().contains(key@) && v == old(self)@[key@],
                None => !old(self)@.dom().contains(key@),
            },
    {
        let ghost before = self.entries@;
        match self.find(key) {
            Some(i) => {
                proof {
                    lemma_entry_in_map(before, i as int);
                }
                let entry = self.entries.remove(i);
                proof {
                    let after = self.entries@;
                    assert(after =~= before.remove(i as int));
                    assert forall|a: int, b: int| 0 <= a < b < after.len() implies (
                    #[trigger] after[a]).0@ != (#[trigger] after[b]).0@ by {
                        let a0 = if a < i {
                            a
                        } else {
                            a + 1
                        };
                        let b0 = if b < i {
                            b
                        } else {
                            b + 1
                        };
                        assert(after[a] == before[a0] && after[b] == before[b0]);
                    }
                    assert forall|k: Seq<char>| #[trigger] has_key(after, k) <==> (has_key(
                        before,
                        k,
                    ) && k != key@) by {
                        if has_key(after, k) {
                            let a = place(after, k);
                            let a0 = if a < i {
                                a
                            } else {
                                a + 1
                            };
                            assert(after[a] == before[a0]);
                            assert(before[a0].0@ == k);
                            if a0 < i {
                                assert(before[a0].0@ != before[i as int].0@);
                            } else {
                                assert(before[i as int].0@ != before[a0].0@);
                            }
                        }
                        if has_key(before, k) && k != key@ {
                            let a0 = place(before, k);
                            let a = if a0 < i {
                                a0
                            } else {
                                a0 - 1
                            };
                            assert(after[a] == before[a0]);
                        }
                    }
                    assert forall|k: Seq<char>| has_key(after, k) implies map_of(after)[k]
                        == map_of(before)[k] by {
                        let a = place(after, k);
                        let a0 = if a < i {
                            a
                        } else {
                            a + 1
                        };
                        assert(after[a] == before[a0]);
                        lemma_entry_in_map(before, a0);
                    }
                    assert(map_of(after) =~= map_of(before).remove(key@));
                }
                Some(entry.1)
            },
            None => {
                assert(map_of(before) =~= map_of(before).remove(key@));
                None
            },
        }
    }

    /// Puts a value under a key, in place of any that is there.
    pub fn insert(&mut self, key: String, value: T)
        requires
            old(self).wf(),
        ensures
            final(self).wf(),
            final(self)@ == old(self)@.insert(key@, value),
    {
        let ghost start = self@;
        let _ = self.remove(key.as_str());
        let ghost before = self.entries@;
        let ghost name = key@;
        assert(!map_of(before).dom().contains(name));
        assert(!has_key(before, name));
        self.entries.push((key, value));
        proof {
            let after = self.entries@;
            let last = before.len() as int;
            assert forall|a: int, b: int| 0 <= a < b < after.len() implies (#[trigger] after[a]).0@
                != (#[trigger] after[b]).0@ by {
                assert(after[a] == before[a]);
                if b < last {
                    assert(after[b] == before[b]);
                } else {
                    assert(after[b].0@ == name);
                }
            }
            assert forall|k: Seq<char>| #[trigger] has_key(after, k) <==> (has_key(before, k) || k
                == name) by {
                if has_key(after, k) {
                    let a = place(after, k);
                    if a < last {
                        assert(after[a] == before[a]);
                    }
                }
                if has_key(before, k) {
                    let a = place(before, k);
                    assert(after[a] == before[a]);
                }
                if k == name {
                    assert(after[last].0@ == k);
                }
            }
            assert forall|k: Seq<char>| has_key(after, k) implies map_of(after)[k] == map_of(
                before,
            ).insert(name, value)[k] by {
                let a = place(after, k);
                if a < last {
                    assert(after[a] == before[a]);
                    lemma_entry_in_map(before, a);
                }
            }
            assert(map_of(after) =~= map_of(before).insert(name, value));
            assert(start.remove(name).insert(name, value) =~= start.insert(name, value));
        }
    }

    pub fn clear(&mut self)
        ensures
            final(self).wf(),
            final(self)@ == Map::<Seq<char>, T>::empty(),
    {
        self.entries = Vec::new();
        assert(self@ =~= Map::<Seq<char>, T>::empty());
    }

    /// The value under a key, to be changed in place.
    pub fn get_mut(&mut self, key: &str) -> (r: Option<&mut T>)
        requires
            old(self).wf(),
        ensures
            match r {
                Some(v) => {
                    &&& old(self)@.dom().contains(key@)
                    &&& *v == old(self)@[key@]
                    &&& final(self).wf()
                    &&& final(self)@ == old(self)@.insert(key@, *final(v))
                },
                None => !old(self)@.dom().contains(key@) && *final(self) == *old(self),
            },
    {
        match self.find(key) {
            Some(i) => {
                proof {
                    let before = self.entries@;
                    lemma_entry_in_map(before, i as int);
                    assert forall|v: T|
                        distinct(#[trigger] before.update(i as int, (before[i as int].0, v)))
                            && map_of(before.update(i as int, (before[i as int].0, v))) == map_of(
                            before,
                        ).insert(key@, v) by {
                        lemma_update_value(before, i as int, v);
                    }
                }
                Some(&mut self.entries[i].1)
            },
            None => None,
        }
    }
}

} // verus!
