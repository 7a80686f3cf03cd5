//! Entity identifiers and their allocator.
//!
//! An [`Entity`] names a node of the widget tree: an index into the flat
//! per-entity storages plus a generation counter, so that a recycled index
//! can be told apart from the entity that used to own it.

use vstd::prelude::*;

verus! {

/// An opaque identifier for a widget node: an index into flat storages and a
/// generation counter that changes every time the index is recycled.
#[derive(Clone, Copy, PartialEq, Eq, Structural, Hash, Debug)]
pub struct Entity {
    pub index: u32,
    pub generation: u32,
}

impl Entity {
    /// The distinguished root entity: always live, never destroyed.
    pub fn root() -> (r: Entity)
        ensures
            r == Entity::root_spec(),
    {
        Entity { index: 0, generation: 0 }
    }

    /// The sentinel standing for "no entity".
    pub fn null() -> (r: Entity)
        ensures
            r == Entity::null_spec(),
    {
        Entity { index: u32::MAX, generation: 0 }
    }

    pub open spec fn root_spec() -> Entity {
        Entity { index: 0, generation: 0 }
    }

    pub open spec fn null_spec() -> Entity {
        Entity { index: u32::MAX, generation: 0 }
    }

    /// The slot of this entity in the flat storages, as a mathematical integer.
    pub open spec fn idx(self) -> int {
        self.index as int
    }

    pub fn is_null(self) -> (r: bool)
        ensures
            r == (self == Entity::null_spec()),
    {
        self.index == u32::MAX && self.generation == 0
    }

    /// The slot of this entity, usable to index the flat storages.
    pub fn index_usize(self) -> (r: usize)
        ensures
            r == self.idx(),
    {
        self.index as usize
    }
}

/// Allocates and recycles entity identifiers.
///
/// A fresh index is handed out until the index space runs dry; a destroyed
/// entity's index goes onto a free list and is reused with its generation
/// incremented, so a stale identifier never names the new occupant.
pub struct EntityManager {
    pub next: u32,
    pub free: Vec<Entity>,
}

impl EntityManager {
    /// Internal consistency: free-listed slots were allocated before, carry
    /// distinct indices, can still bump their generation, and index 0 (the
    /// root) is never recycled.
    pub open spec fn wf(self) -> bool {
        &&& forall|k: int|
            0 <= k < self.free@.len() ==> {
                &&& 0 < (#[trigger] self.free@[k]).index < self.next
                &&& self.free@[k].generation < u32::MAX
            }
        &&& forall|k1: int, k2: int|
            0 <= k1 < k2 < self.free@.len() ==> #[trigger] self.free@[k1].index
                != #[trigger] self.free@[k2].index
        &&& self.next >= 1
    }

    /// Indices handed out so far (the root's index 0 included).
    pub open spec fn next_spec(self) -> int {
        self.next as int
    }

    /// True while `i` is an index this manager considers allocated and not
    /// yet destroyed.
    pub open spec fn allocated(self, i: int) -> bool {
        0 <= i < self.next && !self.on_free_list(i)
    }

    pub open spec fn on_free_list(self, i: int) -> bool {
        exists|k: int| 0 <= k < self.free@.len() && (#[trigger] self.free@[k]).index == i
    }

    /// A fresh manager with only the root's index handed out.
    pub fn new() -> (r: EntityManager)
        ensures
            r.wf(),
            r.next_spec() == 1,
            forall|i: int| r.allocated(i) <==> i == 0,
    {
        EntityManager { next: 1, free: Vec::new() }
    }

    /// Whether another entity can still be created.
    pub fn can_create(&self) -> (r: bool)
        ensures
            r == self.can_create_spec(),
    {
        self.free.len() > 0 || self.next < u32::MAX
    }

    pub open spec fn can_create_spec(self) -> bool {
        self.free@.len() > 0 || self.next < u32::MAX
    }

    /// Allocates a fresh identifier, reusing a freed slot's index with an
    /// incremented generation when one is available. Returns `None` exactly
    /// when the index space is exhausted.
    pub fn create_entity(&mut self) -> (r: Option<Entity>)
        requires
            old(self).wf(),
        ensures
            final(self).wf(),
            r is Some <==> old(self).can_create_spec(),
            r is Some ==> {
                &&& !old(self).allocated(r->0.idx())
                &&& 0 < r->0.idx()
                &&& final(self).allocated(r->0.idx())
                &&& r->0 != Entity::null_spec()
                &&& (r->0.idx() < old(self).next_spec() && final(self).next_spec() == old(
                    self,
                ).next_spec()) || (r->0.idx() == old(self).next_spec() && final(self).next_spec()
                    == old(self).next_spec() + 1)
                &&& forall|i: int| i != r->0.idx() ==> (final(self).allocated(i) <==> old(self).allocated(i))
            },
            r is None ==> final(self).free@ == old(self).free@ && final(self).next == old(
                self,
            ).next,
    {
        if let Some(e) = self.free.pop() {
            let reused = Entity { index: e.index, generation: e.generation + 1 };
            proof {
                assert forall|i: int| i != reused.idx() implies (self.allocated(i) <==> old(
                    self,
                ).allocated(i)) by {
                    assert(forall|k: int|
                        0 <= k < self.free@.len() ==> self.free@[k] == old(self).free@[k]);
                }
                assert(!self.on_free_list(reused.idx()));
            }
            Some(reused)
        } else if self.next < u32::MAX {
            let e = Entity { index: self.next, generation: 0 };
            self.next = self.next + 1;
            Some(e)
        } else {
            None
        }
    }

    /// Returns the index `e.index` to the pool.
    ///
    /// The caller must hand in a currently allocated, non-root entity. When
    /// the slot's generation counter is spent the slot is leaked instead of
    /// recycled, so stale identifiers stay invalid forever.
    pub fn destroy_entity(&mut self, e: Entity)
        requires
            old(self).wf(),
            old(self).allocated(e.idx()),
            e.idx() != 0,
        ensures
            final(self).wf(),
            final(self).next_spec() == old(self).next_spec(),
            e.generation < u32::MAX ==> !final(self).allocated(e.idx()),
            forall|i: int| i != e.idx() ==> (final(self).allocated(i) <==> old(self).allocated(i)),
    {
        if e.generation < u32::MAX {
            self.free.push(e);
            proof {
                assert forall|i: int| i != e.idx() implies (self.allocated(i) <==> old(
                    self,
                ).allocated(i)) by {
                    if old(self).on_free_list(i) {
                        let k = choose|k: int|
                            0 <= k < old(self).free@.len() && (#[trigger] old(self).free@[k]).index
                                == i;
                        assert(self.free@[k].index == i);
                    }
                    if self.on_free_list(i) {
                        let k = choose|k: int|
                            0 <= k < self.free@.len() && (#[trigger] self.free@[k]).index == i;
                        assert(k < old(self).free@.len());
                    }
                }
                assert(self.free@[self.free@.len() - 1].index == e.index);
            }
        }
    }
}

} // verus!
