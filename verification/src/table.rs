//! A table of dated values under text keys, with at most one value to a key.

use vstd::prelude::*;

#[allow(unused_imports)]
use crate::policy::fresh;
use crate::policy::is_fresh;

verus! {

/// A value that carries the moment from which its age is counted.
pub trait Dated: Copy {
    /// The moment from which the value's age is counted.
    spec fn date(self) -> u128;

    /// The moment from which the value's age is counted.
    fn since(&self) -> (t: u128)
        ensures
            t == self.date(),
    ;
}

impl Dated for u128 {
    open spec fn date(self) -> u128 {
        self
    }

    fn since(&self) -> (t: u128) {
        *self
    }
}

/// What is left of `m` at `now` when all that is `lifetime` old or older goes.
pub open spec fn swept<V: Dated>(m: Map<Seq<char>, V>, now: u128, lifetime: u128) -> Map<
    Seq<char>,
    V,
> {
    Map::new(
        |k: Seq<char>| m.contains_key(k) && fresh(m[k].date(), now, lifetime),
        |k: Seq<char>| m[k],
    )
}

/// A table of dated values under text keys.
pub struct DatedTable<V> {
    entries: Vec<(String, V)>,
}

impl<V: Dated> View for DatedTable<V> {
    type V = Map<Seq<char>, V>;

    closed spec fn view(&self) -> Map<Seq<char>, V> {
        Map::new(
            |k: Seq<char>| exists|i: int| self.holds(i, k),
            |k: Seq<char>| self.entries@[choose|i: int| self.holds(i, k)].1,
        )
    }
}

impl<V: Dated> DatedTable<V> {
    /// Entry `i` exists and stands under `key`.
    spec fn holds(&self, i: int, key: Seq<char>) -> bool {
        0 <= i < self.entries@.len() && self.entries@[i].0@ == key
    }

    /// No key stands twice in the table.
    pub closed spec fn wf(&self) -> bool {
        forall|i: int, j: int|
            0 <= i < j < self.entries@.len() ==> self.entries@[i].0@ != self.entries@[j].0@
    }

    proof fn lemma_entry(&self, i: int)
        requires
            self.wf(),
            0 <= i < self.entries@.len(),
        ensures
            self@.contains_key(self.entries@[i].0@),
            self@[self.entries@[i].0@] == self.entries@[i].1,
    {
        let k = self.entries@[i].0@;
        assert(self.holds(i, k));
        let j = choose|j: int| self.holds(j, k);
        assert(self.holds(j, k));
    }

    /// Filling the place of entry `at` with the last entry takes out its key
    /// and nothing else.
    proof fn lemma_swap_remove(self, after: Self, at: int)
        requires
            self.wf(),
            0 <= at < self.entries@.len(),
            after.entries@ == self.entries@.update(at, self.entries@.last()).drop_last(),
        ensures
            after.wf(),
            after@ == self@.remove(self.entries@[at].0@),
    {
        let key = self.entries@[at].0@;
        let last = self.entries@.len() - 1;
        assert forall|i: int, j: int| 0 <= i < j < after.entries@.len() implies
            after.entries@[i].0@ != after.entries@[j].0@ by {
            assert(after.entries@[i] == self.entries@[if i == at { last } else { i }]);
            assert(after.entries@[j] == self.entries@[if j == at { last } else { j }]);
        }
        assert forall|k: Seq<char>| #[trigger]
            after@.contains_key(k) == self@.remove(key).contains_key(k) by {
            self.lemma_entry(at);
            if after@.contains_key(k) {
                let i = choose|i: int| after.holds(i, k);
                self.lemma_entry(if i == at { last } else { i });
            } else if self@.contains_key(k) && k != key {
                let i = choose|i: int| self.holds(i, k);
                assert(after.holds(if i == last { at } else { i }, k));
            }
        }
        assert forall|k: Seq<char>| after@.contains_key(k) implies after@[k] == self@.remove(
            key,
        )[k] by {
            let i = choose|i: int| after.holds(i, k);
            after.lemma_entry(i);
            self.lemma_entry(if i == at { last } else { i });
        }
        assert(after@ =~= self@.remove(key));
    }

    /// A table without entries.
    pub fn new() -> (t: Self)
        ensures
            t.wf(),
            t@ == Map::<Seq<char>, V>::empty(),
    {
        let t = DatedTable { entries: Vec::new() };
        proof {
            assert forall|k: Seq<char>| !t@.contains_key(k) by {
                assert forall|i: int| !t.holds(i, k) by {}
            }
            assert(t@ =~= Map::<Seq<char>, V>::empty());
        }
        t
    }

    /// The position of `key`, or the number of entries if it has none.
    fn find(&self, key: &str) -> (at: usize)
        ensures
            at <= self.entries@.len(),
            at < self.entries@.len() ==> self.entries@[at as int].0@ == key@,
            at == self.entries@.len() ==> forall|i: int| !self.holds(i, key@),
    {
        let wanted = key.to_owned();
        let n = self.entries.len();
        let mut at: usize = 0;
        while at < n && self.entries[at].0 != wanted
            invariant
                wanted@ == key@,
                n == self.entries@.len(),
                at <= n,
                forall|i: int| 0 <= i < at ==> self.entries@[i].0@ != key@,
            decreases n - at,
        {
            at = at + 1;
        }
        at
    }

    /// The value under `key`.
    pub fn get(&self, key: &str) -> (v: Option<V>)
        requires
            self.wf(),
        ensures
            match v {
                Some(v) => self@.contains_key(key@) && self@[key@] == v,
                None => !self@.contains_key(key@),
            },
    {
        let at = self.find(key);
        if at < self.entries.len() {
            proof {
                self.lemma_entry(at as int);
            }
            Some(self.entries[at].1)
        } else {
            None
        }
    }

    /// Takes the value out from under `key`, if there is one.
    pub fn remove(&mut self, key: &str)
        requires
            old(self).wf(),
        ensures
            final(self).wf(),
            final(self)@ == old(self)@.remove(key@),
    {
        let at = self.find(key);
        let ghost before = *self;
        if at < self.entries.len() {
            self.entries.swap_remove(at);
            proof {
                before.lemma_swap_remove(*self, at as int);
            }
        } else {
            assert(self@ =~= before@.remove(key@));
        }
    }

    /// Puts `value` under `key`, in place of any value that stood there.
    pub fn insert(&mut self, key: &str, value: V)
        requires
            old(self).wf(),
        ensures
            final(self).wf(),
            final(self)@ == old(self)@.insert(key@, value),
    {
        self.remove(key);
        let ghost before = *self;
        self.entries.push((key.to_owned(), value));
        proof {
            let n = before.entries@.len();
            assert forall|i: int| 0 <= i < n implies before.entries@[i].0@ != key@ by {
                before.lemma_entry(i);
            }
            assert(self.wf());
            assert forall|k: Seq<char>| #[trigger]
                self@.contains_key(k) == before@.insert(key@, value).contains_key(k) by {
                if self@.contains_key(k) {
                    let i = choose|i: int| self.holds(i, k);
                    if i < n {
                        before.lemma_entry(i);
                    }
                } else if before@.contains_key(k) {
                    let i = choose|i: int| before.holds(i, k);
                    assert(self.holds(i, k));
                } else {
                    assert(self.holds(n as int, key@));
                }
            }
            assert forall|k: Seq<char>| self@.contains_key(k) implies self@[k] == before@.insert(
                key@,
                value,
            )[k] by {
                let i = choose|i: int| self.holds(i, k);
                self.lemma_entry(i);
                if i < n {
                    before.lemma_entry(i);
                }
            }
            assert(self@ =~= before@.insert(key@, value));
        }
    }

    /// Drops every entry that is `lifetime` old or older at `now`.
    pub fn sweep(&mut self, now: u128, lifetime: u128)
        requires
            old(self).wf(),
        ensures
            final(self).wf(),
            final(self)@ == swept(old(self)@, now, lifetime),
    {
        let ghost before = *self;
        let mut i: usize = 0;
        assert(forall|k: Seq<char>, j: int| self.holds(j, k) == before.holds(j, k));
        while i < self.entries.len()
            invariant
                before.wf(),
                self.wf(),
                i <= self.entries@.len(),
                self@.submap_of(before@),
                forall|j: int|
                    0 <= j < i ==> fresh(
                        (#[trigger] self.entries@[j]).1.date(),
                        now,
                        lifetime,
                    ),
                forall|k: Seq<char>| #[trigger]
                    before@.contains_key(k) && fresh(before@[k].date(), now, lifetime)
                        ==> self@.contains_key(k),
            decreases self.entries@.len() - i,
        {
            if is_fresh(self.entries[i].1.since(), now, lifetime) {
                i = i + 1;
            } else {
                proof {
                    self.lemma_entry(i as int);
                }
                let ghost prior = *self;
                self.entries.swap_remove(i);
                proof {
                    prior.lemma_swap_remove(*self, i as int);
                }
            }
        }
        proof {
            assert forall|k: Seq<char>| self@.contains_key(k) implies fresh(
                self@[k].date(),
                now,
                lifetime,
            ) by {
                let j = choose|j: int| self.holds(j, k);
                self.lemma_entry(j);
            }
            assert(self@ =~= swept(before@, now, lifetime));
        }
    }

    /// Forgets every entry.
    pub fn clear(&mut self)
        ensures
            final(self).wf(),
            final(self)@ == Map::<Seq<char>, V>::empty(),
    {
        self.entries.clear();
        proof {
            assert forall|k: Seq<char>| !self@.contains_key(k) by {
                assert forall|i: int| !self.holds(i, k) by {}
            }
            assert(self@ =~= Map::<Seq<char>, V>::empty());
        }
    }
}

} // verus!
