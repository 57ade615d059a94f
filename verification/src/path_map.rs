//! A small map keyed by paths: each path at most once, in insertion order,
//! read as a `Map` from path text to value.
use vstd::prelude::*;

verus! {

/// A map from paths to values, each path held at most once.
#[derive(Debug, Clone)]
pub struct PathMap<T> {
    entries: Vec<(String, T)>,
}

impl<T: Copy> PathMap<T> {
    /// The paths, in entry order.
    pub closed spec fn keys(&self) -> Seq<Seq<char>> {
        Seq::new(self.entries@.len(), |i: int| self.entries@[i].0@)
    }

    /// Well-formed: no path occurs twice.
    pub closed spec fn wf(&self) -> bool {
        self.keys().no_duplicates()
    }

    /// The index of `path`'s entry.
    spec fn slot(&self, path: Seq<char>) -> int {
        choose|i: int| 0 <= i < self.entries@.len() && self.entries@[i].0@ == path
    }

    proof fn lemma_slot(&self, i: int)
        requires
            self.wf(),
            0 <= i < self.entries@.len(),
        ensures
            self.slot(self.entries@[i].0@) == i,
    {
        let k = self.entries@[i].0@;
        let j = self.slot(k);
        assert(self.keys()[i] == k);
        assert(0 <= j < self.entries@.len() && self.entries@[j].0@ == k);
        assert(self.keys()[j] == k);
    }
}

impl<T: Copy> View for PathMap<T> {
    type V = Map<Seq<char>, T>;

    closed spec fn view(&self) -> Map<Seq<char>, T> {
        Map::new(
            |k: Seq<char>| self.keys().contains(k),
            |k: Seq<char>| self.entries@[self.slot(k)].1,
        )
    }
}

impl<T: Copy> PathMap<T> {
    /// An empty map.
    pub fn new() -> (m: PathMap<T>)
        ensures
            m.wf(),
            m@ == Map::<Seq<char>, T>::empty(),
    {
        let m = PathMap { entries: Vec::new() };
        assert(m@ =~= Map::<Seq<char>, T>::empty());
        m
    }

    /// The number of paths in the map.
    pub fn len(&self) -> (n: usize)
        requires
            self.wf(),
        ensures
            n == self@.dom().len(),
    {
        proof {
            self.keys().unique_seq_to_set();
            assert(self@.dom() =~= self.keys().to_set());
        }
        self.entries.len()
    }

    /// The value recorded for `path`, if any.
    pub fn get(&self, path: &str) -> (r: Option<T>)
        requires
            self.wf(),
        ensures
            r == (if self@.dom().contains(path@) {
                Some(self@[path@])
            } else {
                None
            }),
    {
        let mut i: usize = 0;
        while i < self.entries.len()
            invariant
                self.wf(),
                i <= self.entries@.len(),
                forall|j: int| 0 <= j < i ==> self.entries@[j].0@ != path@,
            decreases self.entries.len() - i,
        {
            if crate::text::str_eq(self.entries[i].0.as_str(), path) {
                proof {
                    self.lemma_slot(i as int);
                    assert(self.keys()[i as int] == path@);
                }
                return Some(self.entries[i].1);
            }
            i = i + 1;
        }
        proof {
            if self.keys().contains(path@) {
                let j = choose|j: int| 0 <= j < self.keys().len() && self.keys()[j] == path@;
                assert(self.entries@[j].0@ == path@);
            }
        }
        None
    }

    /// Records `value` for `path`, replacing any earlier value.
    pub fn insert(&mut self, path: String, value: T)
        requires
            old(self).wf(),
        ensures
            final(self).wf(),
            final(self)@ == old(self)@.insert(path@, value),
    {
        let ghost old_self = *self;
        let ghost p = path@;
        let mut i: usize = 0;
        while i < self.entries.len()
            invariant
                *self == old_self,
                old_self == *old(self),
                old_self.wf(),
                i <= self.entries@.len(),
                p == path@,
                forall|j: int| 0 <= j < i ==> self.entries@[j].0@ != path@,
            decreases self.entries.len() - i,
        {
            if self.entries[i].0 == path {
                proof {
                    assert(old_self.keys()[i as int] == p);
                }
                self.entries.set(i, (path, value));
                proof {
                    assert(self.keys() =~= old_self.keys());
                    assert forall|k: Seq<char>| #[trigger] self.keys().contains(k) implies self.entries@[self.slot(k)].1
                        == old_self@.insert(p, value)[k] by {
                        let j = choose|j: int| 0 <= j < self.keys().len() && self.keys()[j] == k;
                        self.lemma_slot(j);
                        old_self.lemma_slot(j);
                        assert(old_self.keys().contains(k));
                        if j != i {
                            assert(old_self.keys()[j] != old_self.keys()[i as int]);
                            assert(k != p);
                            assert(old_self@[k] == old_self.entries@[j].1);
                        }
                    }
                    assert(self@ =~= old_self@.insert(p, value));
                }
                return;
            }
            i = i + 1;
        }
        self.entries.push((path, value));
        proof {
            assert(self.keys() =~= old_self.keys().push(p));
            assert(!old_self.keys().contains(p)) by {
                if old_self.keys().contains(p) {
                    let j = choose|j: int| 0 <= j < old_self.keys().len() && old_self.keys()[j] == p;
                    assert(old_self.entries@[j].0@ == p);
                }
            }
            assert forall|k: Seq<char>| #[trigger] self.keys().contains(k) implies self.entries@[self.slot(k)].1
                == old_self@.insert(p, value)[k] by {
                let j = choose|j: int| 0 <= j < self.keys().len() && self.keys()[j] == k;
                self.lemma_slot(j);
                if j < old_self.entries@.len() {
                    old_self.lemma_slot(j);
                }
            }
            assert forall|k: Seq<char>| #[trigger] old_self@.insert(p, value).dom().contains(k) implies self.keys().contains(k) by {
                if k == p {
                    assert(self.keys()[old_self.entries@.len() as int] == p);
                } else {
                    let j = choose|j: int| 0 <= j < old_self.keys().len() && old_self.keys()[j] == k;
                    assert(self.keys()[j] == k);
                }
            }
            assert(self@ =~= old_self@.insert(p, value));
        }
    }

    /// Drops `path`'s entry, if any.
    pub fn remove(&mut self, path: &str)
        requires
            old(self).wf(),
        ensures
            final(self).wf(),
            final(self)@ == old(self)@.remove(path@),
    {
        let ghost old_self = *self;
        let mut i: usize = 0;
        while i < self.entries.len()
            invariant
                *self == old_self,
                old_self == *old(self),
                old_self.wf(),
                i <= self.entries@.len(),
                forall|j: int| 0 <= j < i ==> self.entries@[j].0@ != path@,
            decreases self.entries.len() - i,
        {
            if crate::text::str_eq(self.entries[i].0.as_str(), path) {
                let ghost k = i as int;
                self.entries.remove(i);
                proof {
                    assert(self.keys() =~= old_self.keys().remove(k));
                    assert(old_self.keys()[k] == path@);
                    assert forall|a: int, b: int|
                        0 <= a < self.keys().len() && 0 <= b < self.keys().len() && a != b implies
                        self.keys()[a] != self.keys()[b] by {
                        let oa = if a < k { a } else { a + 1 };
                        let ob = if b < k { b } else { b + 1 };
                        assert(self.keys()[a] == old_self.keys()[oa]);
                        assert(self.keys()[b] == old_self.keys()[ob]);
                    }
                    assert forall|q: Seq<char>| #[trigger] self.keys().contains(q) implies self.entries@[self.slot(q)].1
                        == old_self@[q] && q != path@ by {
                        let j = choose|j: int| 0 <= j < self.keys().len() && self.keys()[j] == q;
                        self.lemma_slot(j);
                        let oj = if j < k { j } else { j + 1 };
                        assert(self.entries@[j] == old_self.entries@[oj]);
                        old_self.lemma_slot(oj);
                        assert(old_self.keys()[oj] == q);
                        assert(old_self.keys().contains(q));
                        assert(oj != k);
                    }
                    assert forall|q: Seq<char>| #[trigger] old_self@.remove(path@).dom().contains(q) implies self.keys().contains(q) by {
                        let oj = choose|j: int| 0 <= j < old_self.keys().len() && old_self.keys()[j] == q;
                        assert(oj != k);
                        let j = if oj < k { oj } else { oj - 1 };
                        assert(self.keys()[j] == q);
                    }
                    assert(self@ =~= old_self@.remove(path@));
                }
                return ;
            }
            i = i + 1;
        }
        proof {
            assert(!old_self.keys().contains(path@)) by {
                if old_self.keys().contains(path@) {
                    let j = choose|j: int| 0 <= j < old_self.keys().len() && old_self.keys()[j] == path@;
                    assert(old_self.entries@[j].0@ == path@);
                }
            }
            assert(old_self@ =~= old_self@.remove(path@));
        }
    }
}

} // verus!
