//! A small name-keyed association map used by the registries and
//! resource repositories of the runtime.
//!
//! Entries are kept in insertion order in a vector; lookups return the
//! first match. Every constructor and mutator of this crate keeps the
//! keys distinct (`wf`), and under that invariant inserting an existing
//! key overwrites its value in place (last write wins), which is the
//! behaviour the template registry relies on.

use vstd::prelude::*;

verus! {

pub struct NameMap<V> {
    items: Vec<(String, V)>,
}

impl<V> NameMap<V> {
    pub closed spec fn len(self) -> nat {
        self.items@.len()
    }

    pub closed spec fn key_at(self, i: int) -> Seq<char> {
        self.items@[i].0@
    }

    pub closed spec fn val_at(self, i: int) -> V {
        self.items@[i].1
    }

    pub open spec fn has_key(self, k: Seq<char>) -> bool {
        exists|i: int| 0 <= i < self.len() && self.key_at(i) == k
    }

    pub open spec fn idx_of(self, k: Seq<char>) -> int {
        choose|i: int| 0 <= i < self.len() && self.key_at(i) == k
    }

    pub open spec fn spec_get(self, k: Seq<char>) -> Option<V> {
        if self.has_key(k) {
            Some(self.val_at(self.idx_of(k)))
        } else {
            None
        }
    }

    /// Keys are pairwise distinct.
    pub open spec fn wf(self) -> bool {
        forall|i: int, j: int|
            0 <= i < j < self.len() ==> self.key_at(i) != self.key_at(j)
    }

    /// Any position holding key `k` is the position `idx_of(k)` picks.
    pub proof fn lemma_idx_unique(self, k: Seq<char>, i: int)
        requires
            self.wf(),
            0 <= i < self.len(),
            self.key_at(i) == k,
        ensures
            self.idx_of(k) == i,
            self.has_key(k),
    {
        assert(self.has_key(k));
        let j = self.idx_of(k);
        if i < j {
            assert(self.key_at(i) != self.key_at(j));
        } else if j < i {
            assert(self.key_at(j) != self.key_at(i));
        }
    }

    pub fn new() -> (r: Self)
        ensures
            r.wf(),
            r.len() == 0,
            forall|k: Seq<char>| !r.has_key(k),
    {
        NameMap { items: Vec::new() }
    }

    pub fn count(&self) -> (n: usize)
        ensures
            n == self.len(),
    {
        self.items.len()
    }

    pub fn key_index(&self, i: usize) -> (k: &String)
        requires
            i < self.len(),
        ensures
            k@ == self.key_at(i as int),
    {
        &self.items[i].0
    }

    pub fn val_index(&self, i: usize) -> (v: &V)
        requires
            i < self.len(),
        ensures
            *v == self.val_at(i as int),
    {
        &self.items[i].1
    }

    /// Hands the entries out, in order, consuming the map.
    pub fn into_items(self) -> (r: Vec<(String, V)>)
        ensures
            r@.len() == self.len(),
            forall|i: int| 0 <= i < r@.len() ==> r@[i].0@ == self.key_at(i)
                && r@[i].1 == self.val_at(i),
    {
        self.items
    }

    /// Position of the first entry named `name`, if any.
    fn find(&self, name: &str) -> (r: Option<usize>)
        ensures
            match r {
                Some(i) => i < self.len() && self.key_at(i as int) == name@
                    && forall|j: int| 0 <= j < i ==> self.key_at(j) != name@,
                None => !self.has_key(name@),
            },
    {
        let wanted: String = name.to_owned();
        let n = self.items.len();
        let mut i: usize = 0;
        while i < n
            invariant
                n == self.len(),
                i <= n,
                wanted@ == name@,
                forall|j: int| 0 <= j < i ==> self.key_at(j) != name@,
            decreases n - i,
        {
            if self.items[i].0 == wanted {
                return Some(i);
            }
            i += 1;
        }
        None
    }

    pub fn get(&self, name: &str) -> (r: Option<&V>)
        ensures
            self.wf() ==> match r {
                Some(v) => self.has_key(name@) && *v == self.val_at(self.idx_of(name@)),
                None => !self.has_key(name@),
            },
            r is Some ==> self.has_key(name@),
    {
        match self.find(name) {
            Some(i) => {
                proof {
                    if self.wf() {
                        self.lemma_idx_unique(name@, i as int);
                    }
                }
                Some(&self.items[i].1)
            },
            None => None,
        }
    }

    pub fn contains(&self, name: &str) -> (r: bool)
        ensures
            r == self.has_key(name@),
    {
        self.find(name).is_some()
    }

    pub fn insert(&mut self, name: String, value: V)
        ensures
            old(self).wf() ==> {
                &&& final(self).wf()
                &&& final(self).has_key(name@)
                &&& final(self).spec_get(name@) == Some(value)
                &&& forall|k: Seq<char>| k != name@ ==>
                    final(self).spec_get(k) == old(self).spec_get(k)
                &&& forall|k: Seq<char>| k != name@ ==>
                    final(self).has_key(k) == old(self).has_key(k)
                &&& old(self).has_key(name@) ==> {
                    &&& final(self).len() == old(self).len()
                    &&& forall|i: int| 0 <= i < old(self).len() ==>
                        final(self).key_at(i) == old(self).key_at(i)
                    &&& forall|i: int| 0 <= i < old(self).len() && i != old(self).idx_of(name@)
                        ==> final(self).val_at(i) == old(self).val_at(i)
                    &&& final(self).val_at(old(self).idx_of(name@)) == value
                }
                &&& !old(self).has_key(name@) ==> {
                    &&& final(self).len() == old(self).len() + 1
                    &&& forall|i: int| 0 <= i < old(self).len() ==>
                        final(self).key_at(i) == old(self).key_at(i)
                    &&& forall|i: int| 0 <= i < old(self).len() ==>
                        final(self).val_at(i) == old(self).val_at(i)
                    &&& final(self).key_at(old(self).len() as int) == name@
                    &&& final(self).val_at(old(self).len() as int) == value
                }
            },
    {
        let found = self.find(name.as_str());
        match found {
            Some(i) => {
                let slot = &mut self.items[i];
                slot.1 = value;
                proof {
                    if old(self).wf() {
                        assert(final(self).len() == old(self).len());
                        assert forall|j: int| 0 <= j < old(self).len() implies
                            final(self).key_at(j) == old(self).key_at(j) by {}
                        assert(final(self).wf());
                        assert(final(self).val_at(i as int) == value);
                        old(self).lemma_idx_unique(name@, i as int);
                        final(self).lemma_idx_unique(name@, i as int);
                        assert forall|k: Seq<char>| k != name@ implies
                            final(self).spec_get(k) == old(self).spec_get(k) by {
                            if old(self).has_key(k) {
                                let j = old(self).idx_of(k);
                                old(self).lemma_idx_unique(k, j);
                                final(self).lemma_idx_unique(k, j);
                            } else {
                                assert(!final(self).has_key(k));
                            }
                        }
                    }
                }
            },
            None => {
                self.items.push((name, value));
                proof {
                    if old(self).wf() {
                        let n = old(self).len() as int;
                        assert(final(self).len() == n + 1);
                        assert forall|j: int| 0 <= j < n implies
                            final(self).key_at(j) == old(self).key_at(j) by {}
                        assert(final(self).key_at(n) == name@);
                        assert forall|i2: int, j2: int| 0 <= i2 < j2 < final(self).len() implies
                            final(self).key_at(i2) != final(self).key_at(j2) by {
                            if j2 < n + 1 && j2 == n {
                                assert(!old(self).has_key(name@));
                                assert(old(self).key_at(i2) != name@);
                            }
                        }
                        assert(final(self).wf());
                        final(self).lemma_idx_unique(name@, n);
                        assert forall|k: Seq<char>| k != name@ implies
                            final(self).spec_get(k) == old(self).spec_get(k) by {
                            if old(self).has_key(k) {
                                let j = old(self).idx_of(k);
                                old(self).lemma_idx_unique(k, j);
                                final(self).lemma_idx_unique(k, j);
                            } else {
                                assert forall|j: int| 0 <= j < final(self).len() implies
                                    final(self).key_at(j) != k by {
                                    if j < n {
                                        assert(old(self).key_at(j) != k);
                                    }
                                }
                                assert(!final(self).has_key(k));
                            }
                        }
                    }
                }
            },
        }
    }

    pub fn remove(&mut self, name: &str) -> (r: Option<V>)
        ensures
            old(self).wf() ==> {
                &&& final(self).wf()
                &&& !final(self).has_key(name@)
                &&& r == old(self).spec_get(name@)
                &&& forall|k: Seq<char>| k != name@ ==>
                    final(self).spec_get(k) == old(self).spec_get(k)
                &&& forall|k: Seq<char>| k != name@ ==>
                    final(self).has_key(k) == old(self).has_key(k)
                &&& old(self).has_key(name@) ==> final(self).len() == old(self).len() - 1
                &&& !old(self).has_key(name@) ==> *final(self) == *old(self)
            },
    {
        let found = self.find(name);
        match found {
            Some(i) => {
                let pair = self.items.remove(i);
                proof {
                    if old(self).wf() {
                        let n = old(self).len() as int;
                        let ii = i as int;
                        assert(final(self).len() == n - 1);
                        assert forall|j: int| 0 <= j < n - 1 implies
                            final(self).key_at(j)
                                == old(self).key_at(if j < ii { j } else { j + 1 }) by {}
                        assert forall|i2: int, j2: int| 0 <= i2 < j2 < final(self).len() implies
                            final(self).key_at(i2) != final(self).key_at(j2) by {
                            let io = if i2 < ii { i2 } else { i2 + 1 };
                            let jo = if j2 < ii { j2 } else { j2 + 1 };
                            assert(final(self).key_at(i2) == old(self).key_at(io));
                            assert(final(self).key_at(j2) == old(self).key_at(jo));
                        }
                        assert(final(self).wf());
                        old(self).lemma_idx_unique(name@, ii);
                        assert forall|j: int| 0 <= j < final(self).len() implies
                            final(self).key_at(j) != name@ by {
                            let jo = if j < ii { j } else { j + 1 };
                            assert(final(self).key_at(j) == old(self).key_at(jo));
                        }
                        assert(!final(self).has_key(name@));
                        assert forall|k: Seq<char>| k != name@ implies
                            final(self).spec_get(k) == old(self).spec_get(k)
                            && final(self).has_key(k) == old(self).has_key(k) by {
                            if old(self).has_key(k) {
                                let j = old(self).idx_of(k);
                                old(self).lemma_idx_unique(k, j);
                                let jn = if j < ii { j } else { j - 1 };
                                assert(j != ii);
                                assert(final(self).key_at(jn) == k);
                                final(self).lemma_idx_unique(k, jn);
                            } else {
                                assert forall|j: int| 0 <= j < final(self).len() implies
                                    final(self).key_at(j) != k by {
                                    let jo = if j < ii { j } else { j + 1 };
                                    assert(final(self).key_at(j) == old(self).key_at(jo));
                                }
                                assert(!final(self).has_key(k));
                            }
                        }
                    }
                }
                Some(pair.1)
            },
            None => None,
        }
    }
}

} // verus!
