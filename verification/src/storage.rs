//! Sparse, entity-indexed property containers.
//!
//! A [`Storage`] maps entities to values of one property. It is a sparse set:
//! a dense array of values plus an index-to-slot indirection, so lookups are
//! constant-time and removing one entity never disturbs another's value.

use vstd::prelude::*;

use crate::entity::Entity;

verus! {

/// The sentinel marking an empty slot of the indirection table.
pub const NO_SLOT: usize = usize::MAX;

/// A sparse map from entities (by index) to values of type `T`.
///
/// Its mathematical content is the map [`Storage::view`] from entity indices
/// to values; [`Storage::wf`] is the internal sparse/dense consistency that
/// every operation preserves.
pub struct Storage<T> {
    sparse: Vec<usize>,
    dense: Vec<u32>,
    values: Vec<T>,
}

impl<T> Storage<T> {
    /// Sparse/dense consistency: every dense slot's back-pointer agrees with
    /// the indirection table.
    pub closed spec fn wf(self) -> bool {
        &&& self.dense@.len() == self.values@.len()
        &&& forall|p: int|
            0 <= p < self.dense@.len() ==> {
                &&& (#[trigger] self.dense@[p]) < self.sparse@.len()
                &&& self.sparse@[self.dense@[p] as int] == p
            }
    }

    /// Whether entity index `i` holds a value.
    pub closed spec fn spec_contains(self, i: int) -> bool {
        &&& 0 <= i < self.sparse@.len()
        &&& self.sparse@[i] < self.dense@.len()
        &&& self.dense@[self.sparse@[i] as int] == i
    }

    /// The contents as a map from entity index to value.
    pub closed spec fn view(self) -> Map<int, T> {
        Map::new(|i: int| self.spec_contains(i), |i: int| self.values@[self.sparse@[i] as int])
    }

    /// An empty storage.
    pub fn new() -> (r: Storage<T>)
        ensures
            r.wf(),
            r@ == Map::<int, T>::empty(),
    {
        let r = Storage { sparse: Vec::new(), dense: Vec::new(), values: Vec::new() };
        proof {
            assert(r@ =~= Map::<int, T>::empty());
        }
        r
    }

    /// Whether `e` holds a value.
    pub fn contains(&self, e: Entity) -> (r: bool)
        requires
            self.wf(),
        ensures
            r == self@.dom().contains(e.idx()),
    {
        let i = e.index_usize();
        i < self.sparse.len() && self.sparse[i] < self.dense.len() && self.dense[self.sparse[i]]
            as usize == i
    }

    /// The value of `e`, if one is set.
    pub fn get(&self, e: Entity) -> (r: Option<&T>)
        requires
            self.wf(),
        ensures
            match r {
                Some(v) => self@.dom().contains(e.idx()) && *v == self@[e.idx()],
                None => !self@.dom().contains(e.idx()),
            },
    {
        let i = e.index_usize();
        if i < self.sparse.len() && self.sparse[i] < self.dense.len() && self.dense[self.sparse[i]]
            as usize == i {
            Some(&self.values[self.sparse[i]])
        } else {
            None
        }
    }

    /// Sets the value of `e`, replacing any previous one.
    pub fn insert(&mut self, e: Entity, value: T)
        requires
            old(self).wf(),
        ensures
            final(self).wf(),
            final(self)@ == old(self)@.insert(e.idx(), value),
    {
        let i = e.index_usize();
        while self.sparse.len() <= i
            invariant
                self.dense@ == old(self).dense@,
                self.values@ == old(self).values@,
                self.sparse@.len() >= old(self).sparse@.len(),
                self.sparse@ =~= old(self).sparse@ + Seq::new(
                    (self.sparse@.len() - old(self).sparse@.len()) as nat,
                    |k: int| NO_SLOT as usize,
                ),
                self.wf(),
            decreases i + 1 - self.sparse@.len(),
        {
            self.sparse.push(NO_SLOT);
        }
        proof {
            assert(self@ =~= old(self)@) by {
                assert forall|j: int| self.spec_contains(j) implies old(self).spec_contains(j) by {
                    if j >= old(self).sparse@.len() {
                        assert(self.sparse@[j] == NO_SLOT as usize);
                    }
                }
            }
        }
        if self.sparse[i] < self.dense.len() && self.dense[self.sparse[i]] as usize == i {
            let p = self.sparse[i];
            self.values.set(p, value);
            proof {
                assert(final(self)@ =~= old(self)@.insert(e.idx(), value));
            }
        } else {
            let ghost mid = *self;
            self.sparse.set(i, self.dense.len());
            self.dense.push(e.index);
            self.values.push(value);
            proof {
                assert forall|j: int| #[trigger]
                    self.spec_contains(j) && j != e.idx() implies mid.spec_contains(j)
                    && self.values@[self.sparse@[j] as int] == mid.values@[mid.sparse@[j] as int] by {
                    assert(mid.dense@[self.sparse@[j] as int] == mid.dense@[mid.sparse@[j] as int]);
                }
                assert(self.spec_contains(e.idx()));
                assert(final(self)@ =~= old(self)@.insert(e.idx(), value));
            }
        }
    }

    /// Removes the value of `e`, if any; other entities' values are untouched.
    pub fn remove(&mut self, e: Entity)
        requires
            old(self).wf(),
        ensures
            final(self).wf(),
            final(self)@ == old(self)@.remove(e.idx()),
    {
        let _ = self.take(e);
    }

    /// Removes and returns the value of `e`, if any.
    pub fn take(&mut self, e: Entity) -> (r: Option<T>)
        requires
            old(self).wf(),
        ensures
            final(self).wf(),
            final(self)@ == old(self)@.remove(e.idx()),
            match r {
                Some(v) => old(self)@.dom().contains(e.idx()) && v == old(self)@[e.idx()],
                None => !old(self)@.dom().contains(e.idx()),
            },
    {
        let i = e.index_usize();
        if i < self.sparse.len() && self.sparse[i] < self.dense.len() && self.dense[self.sparse[i]]
            as usize == i {
            let p = self.sparse[i];
            let last = self.dense.len() - 1;
            let moved = self.dense[last];
            self.dense.set(p, moved);
            self.dense.pop();
            let value = self.values.swap_remove(p);
            self.sparse.set(moved as usize, p);
            self.sparse.set(i, NO_SLOT);
            proof {
                if p < last {
                    assert(self.spec_contains(moved as int));
                }
                assert(final(self)@ =~= old(self)@.remove(e.idx())) by {
                    assert forall|j: int| #[trigger]
                        self.spec_contains(j) implies j != e.idx() && old(self).spec_contains(j)
                        && self.values@[self.sparse@[j] as int] == old(self).values@[old(
                        self,
                    ).sparse@[j] as int] by {
                        if j == moved as int && p < last {
                            assert(old(self).sparse@[j] == last);
                        } else {
                            assert(old(self).dense@[self.sparse@[j] as int] == j);
                        }
                    }
                    assert forall|j: int|
                        old(self).spec_contains(j) && j != e.idx() implies #[trigger] self
                        .spec_contains(j) by {
                        if j == moved as int {
                        } else {
                            assert(old(self).sparse@[j] != p) by {
                                assert(old(self).dense@[old(self).sparse@[j] as int] == j);
                            }
                            assert(old(self).sparse@[j] != last || j == moved as int);
                        }
                    }
                }
            }
            Some(value)
        } else {
            proof {
                assert(final(self)@ =~= old(self)@.remove(e.idx()));
            }
            None
        }
    }
}

impl<T: Copy> Storage<T> {
    /// The value of `e`, or `default` where none is set.
    pub fn get_or(&self, e: Entity, default: T) -> (r: T)
        requires
            self.wf(),
        ensures
            r == self.spec_get_or(e.idx(), default),
    {
        match self.get(e) {
            Some(v) => *v,
            None => default,
        }
    }

    /// The value at index `i`, or `default` where none is set.
    pub open spec fn spec_get_or(self, i: int, default: T) -> T {
        if self@.dom().contains(i) {
            self@[i]
        } else {
            default
        }
    }
}

} // verus!
