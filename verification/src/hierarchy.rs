//! Tree topology of the widget entities.
//!
//! A [`Hierarchy`] keeps, for every live entity, its parent and its children
//! in insertion order, forming a tree rooted at the root entity. Every
//! non-root live entity has exactly one parent; removing an entity removes
//! its whole subtree and reports it in pre-order.

use vstd::prelude::*;

use crate::entity::Entity;

verus! {

/// Parent/children adjacency for every live entity, rooted at slot 0.
///
/// Slots are entity indices. The ghost `depth` and `ops` fields witness that
/// the parent links are acyclic: every live node's depth is one more than its
/// parent's, and all depths are bounded by the number of insertions made.
pub struct Hierarchy {
    pub ent: Vec<Entity>,
    pub parent: Vec<u32>,
    pub children: Vec<Vec<u32>>,
    pub live: Vec<bool>,
    pub depth: Ghost<Map<int, nat>>,
    pub ops: Ghost<nat>,
}

impl Hierarchy {
    /// Number of slots.
    pub open spec fn n(self) -> int {
        self.live@.len() as int
    }

    /// Whether slot `i` holds a live entity.
    pub open spec fn is_live(self, i: int) -> bool {
        0 <= i < self.live@.len() && self.live@[i]
    }

    /// The parent slot of live slot `i` (slot 0, the root, points at itself).
    pub open spec fn parent_of(self, i: int) -> int {
        self.parent@[i] as int
    }

    /// The child slots of slot `i`, in insertion order.
    pub open spec fn kids(self, i: int) -> Seq<int> {
        self.children@[i]@.map(|k: int, c: u32| c as int)
    }

    /// The entity currently occupying live slot `i`.
    pub open spec fn entity_of(self, i: int) -> Entity {
        self.ent@[i]
    }

    pub open spec fn depth_of(self, i: int) -> nat {
        self.depth@[i]
    }

    pub open spec fn ops_spec(self) -> nat {
        self.ops@
    }

    /// The tree invariant: slot 0 is the live root and its own parent; every
    /// other live slot has a live parent whose child list mentions it; child
    /// lists are duplicate-free, point back at their owner, and only mention
    /// live slots; and depths witness acyclicity.
    pub open spec fn wf(self) -> bool {
        &&& self.ent@.len() == self.live@.len()
        &&& self.parent@.len() == self.live@.len()
        &&& self.children@.len() == self.live@.len()
        &&& self.live@.len() >= 1
        &&& self.live@[0]
        &&& self.parent@[0] == 0
        &&& self.ent@[0] == Entity::root_spec()
        &&& self.depth@[0] == 0
        &&& forall|i: int| self.is_live(i) ==> (#[trigger] self.entity_of(i)).idx() == i
        &&& forall|i: int|
            #![trigger self.parent_of(i)]
            self.is_live(i) && i != 0 ==> {
                &&& self.is_live(self.parent_of(i))
                &&& self.depth_of(i) == self.depth_of(self.parent_of(i)) + 1
                &&& self.kids(self.parent_of(i)).contains(i)
            }
        &&& forall|i: int| self.is_live(i) ==> #[trigger] self.depth_of(i) <= self.ops_spec()
        &&& forall|i: int, k: int|
            #![trigger self.kids(i)[k]]
            self.is_live(i) && 0 <= k < self.kids(i).len() ==> {
                &&& 0 < self.kids(i)[k] < self.n()
                &&& self.is_live(self.kids(i)[k])
                &&& self.parent_of(self.kids(i)[k]) == i
            }
        &&& forall|i: int, k1: int, k2: int|
            self.is_live(i) && 0 <= k1 < k2 < self.kids(i).len() ==> #[trigger] self.kids(i)[k1]
                != #[trigger] self.kids(i)[k2]
        &&& forall|i: int|
            0 <= i < self.n() && !self.is_live(i) ==> (#[trigger] self.kids(i)).len() == 0
    }

    /// The `k`-th ancestor of slot `i` along the parent links (the root is
    /// its own parent, so long walks come to rest at slot 0).
    pub open spec fn anc(self, i: int, k: nat) -> int
        decreases k,
    {
        if k == 0 {
            i
        } else {
            self.anc(self.parent_of(i), (k - 1) as nat)
        }
    }

    /// Whether live slot `d` lies in the subtree of slot `a`.
    pub open spec fn is_desc(self, d: int, a: int) -> bool {
        &&& self.is_live(d)
        &&& self.is_live(a)
        &&& exists|k: nat| self.anc(d, k) == a
    }

    /// Walking `k1 + k2` steps up is walking `k1` steps, then `k2` more.
    pub proof fn lemma_anc_add(self, i: int, k1: nat, k2: nat)
        ensures
            self.anc(i, k1 + k2) == self.anc(self.anc(i, k1), k2),
        decreases k1,
    {
        if k1 > 0 {
            self.lemma_anc_add(self.parent_of(i), (k1 - 1) as nat, k2);
        }
    }

    /// Along the parent links of a well-formed tree, every node passed is
    /// live, depth falls by one per step, and the walk rests at the root.
    pub proof fn lemma_anc_depth(self, i: int, k: nat)
        requires
            self.wf(),
            self.is_live(i),
        ensures
            self.is_live(self.anc(i, k)),
            k <= self.depth_of(i) ==> self.depth_of(self.anc(i, k)) == self.depth_of(i) - k,
            k >= self.depth_of(i) ==> self.anc(i, k) == 0,
        decreases k,
    {
        if i != 0 {
            assert(self.depth_of(i) == self.depth_of(self.parent_of(i)) + 1);
        }
        if k > 0 {
            if i == 0 {
                self.lemma_anc_depth(0, (k - 1) as nat);
            } else {
                self.lemma_anc_depth(self.parent_of(i), (k - 1) as nat);
            }
        }
    }

    /// Two distinct live slots of equal depth have disjoint subtrees.
    pub proof fn lemma_equal_depth_disjoint(self, a1: int, a2: int, d: int)
        requires
            self.wf(),
            self.is_live(a1),
            self.is_live(a2),
            a1 != a2,
            self.depth_of(a1) == self.depth_of(a2),
            self.is_desc(d, a1),
        ensures
            !self.is_desc(d, a2),
    {
        if self.is_desc(d, a2) {
            let k1 = choose|k: nat| self.anc(d, k) == a1;
            let k2 = choose|k: nat| self.anc(d, k) == a2;
            self.lemma_anc_depth(d, k1);
            self.lemma_anc_depth(d, k2);
            if a1 != 0 && a2 != 0 {
                assert(k1 < self.depth_of(d) || a1 == 0);
                assert(k2 < self.depth_of(d) || a2 == 0);
                assert(k1 == k2);
            } else {
                // A live slot of the root's depth is the root itself.
                assert(a1 == 0 ==> self.depth_of(a2) == 0 && a2 == 0);
                assert(a2 == 0 ==> self.depth_of(a1) == 0 && a1 == 0);
            }
        }
    }

    /// A descendant of a child is a descendant of the parent.
    pub proof fn lemma_desc_step(self, d: int, c: int, a: int)
        requires
            self.wf(),
            self.is_desc(d, c),
            self.is_live(a),
            self.is_live(c),
            c != 0,
            self.parent_of(c) == a,
        ensures
            self.is_desc(d, a),
    {
        let k = choose|k: nat| self.anc(d, k) == c;
        self.lemma_anc_add(d, k, 1);
        assert(self.anc(d, k + 1) == self.anc(c, 1));
        assert(self.anc(self.parent_of(c), 0) == a);
        assert(self.anc(c, 1) == a);
        assert(self.anc(d, (k + 1) as nat) == a);
    }

    /// Every member of a set that contains `a` and is closed under children
    /// contains the whole subtree of `a`.
    pub proof fn lemma_closure_complete(self, s: Seq<int>, a: int, d: int, k: nat)
        requires
            self.wf(),
            s.contains(a),
            forall|n: int, j: int|
                #![trigger self.kids(n)[j]]
                s.contains(n) && self.is_live(n) && 0 <= j < self.kids(n).len() ==> s.contains(
                    self.kids(n)[j],
                ),
            self.is_live(d),
            self.anc(d, k) == a,
        ensures
            s.contains(d),
        decreases k,
    {
        if k == 0 {
        } else if d == 0 {
            self.lemma_anc_depth(d, k);
            assert(a == 0);
        } else {
            self.lemma_closure_complete(s, a, self.parent_of(d), (k - 1) as nat);
            let kk = choose|j: int|
                0 <= j < self.kids(self.parent_of(d)).len() && self.kids(self.parent_of(d))[j] == d;
            assert(s.contains(self.kids(self.parent_of(d))[kk]));
        }
    }

    /// A hierarchy holding only the live root.
    pub fn new() -> (r: Hierarchy)
        ensures
            r.wf(),
            r.n() == 1,
            forall|i: int| r.is_live(i) <==> i == 0,
            r.kids(0).len() == 0,
            r.entity_of(0) == Entity::root_spec(),
    {
        let r = Hierarchy {
            ent: vec![Entity::root()],
            parent: vec![0u32],
            children: vec![Vec::new()],
            live: vec![true],
            depth: Ghost(Map::new(|i: int| i == 0, |i: int| 0nat)),
            ops: Ghost(0nat),
        };
        proof {
            assert(r.kids(0) =~= Seq::<int>::empty());
        }
        r
    }

    /// Number of slots, as seen by executable code.
    pub fn len(&self) -> (r: usize)
        ensures
            r == self.n(),
    {
        self.live.len()
    }

    /// Whether `e`'s slot currently holds a live entity, and `e` is the
    /// entity holding it (a stale generation is reported dead).
    pub fn is_entity_live(&self, e: Entity) -> (r: bool)
        requires
            self.wf(),
        ensures
            r == (self.is_live(e.idx()) && self.entity_of(e.idx()) == e),
    {
        let i = e.index_usize();
        i < self.live.len() && self.live[i] && self.ent[i] == e
    }

    /// The entity occupying `e`'s slot (i.e. `e` itself while `e` is live).
    pub fn get_entity(&self, e: Entity) -> (r: Entity)
        requires
            self.wf(),
            self.is_live(e.idx()),
        ensures
            r == self.entity_of(e.idx()),
    {
        self.ent[e.index as usize]
    }

    /// The parent of `e`, or `None` for the root.
    pub fn get_parent(&self, e: Entity) -> (r: Option<Entity>)
        requires
            self.wf(),
            self.is_live(e.idx()),
        ensures
            match r {
                Some(p) => e.idx() != 0 && p == self.entity_of(self.parent_of(e.idx())),
                None => e.idx() == 0,
            },
    {
        let i = e.index_usize();
        if i == 0 {
            None
        } else {
            proof {
                assert(self.is_live(self.parent_of(e.idx())));
            }
            Some(self.ent[self.parent[i] as usize])
        }
    }

    /// The children of `e`, in insertion order.
    pub fn get_children(&self, e: Entity) -> (r: Vec<Entity>)
        requires
            self.wf(),
            self.is_live(e.idx()),
        ensures
            r@.len() == self.kids(e.idx()).len(),
            forall|k: int|
                0 <= k < r@.len() ==> #[trigger] r@[k] == self.entity_of(self.kids(e.idx())[k]),
    {
        let i = e.index_usize();
        let mut r: Vec<Entity> = Vec::new();
        let mut k: usize = 0;
        while k < self.children[i].len()
            invariant
                self.wf(),
                self.is_live(i as int),
                i < self.children@.len(),
                k <= self.children@[i as int]@.len(),
                r@.len() == k,
                forall|m: int|
                    0 <= m < k ==> #[trigger] r@[m] == self.entity_of(self.kids(i as int)[m]),
            decreases self.children@[i as int]@.len() - k,
        {
            let c = self.children[i][k];
            proof {
                assert(self.kids(i as int)[k as int] == c as int);
                assert(self.is_live(c as int));
            }
            r.push(self.ent[c as usize]);
            k = k + 1;
        }
        r
    }

    /// Inserts `entity` as the last child of `parent`; `None` as the parent
    /// is accepted only for the root entity, which is already present.
    ///
    /// The entity must be freshly allocated: its slot is either the next new
    /// one or a dead recycled one.
    pub fn add(&mut self, entity: Entity, parent: Option<Entity>)
        requires
            old(self).wf(),
            match parent {
                Some(p) => {
                    &&& old(self).is_live(p.idx())
                    &&& entity.idx() != 0
                    &&& entity != Entity::null_spec()
                    &&& (entity.idx() == old(self).n() || (entity.idx() < old(self).n() && !old(
                        self,
                    ).is_live(entity.idx())))
                },
                None => entity == Entity::root_spec(),
            },
        ensures
            final(self).wf(),
            match parent {
                Some(p) => {
                    &&& forall|i: int|
                        i != entity.idx() ==> (final(self).is_live(i) <==> old(self).is_live(i))
                    &&& final(self).is_live(entity.idx())
                    &&& final(self).entity_of(entity.idx()) == entity
                    &&& final(self).parent_of(entity.idx()) == p.idx()
                    &&& final(self).kids(p.idx()) == old(self).kids(p.idx()).push(entity.idx())
                    &&& final(self).kids(entity.idx()).len() == 0
                    &&& forall|i: int|
                        old(self).is_live(i) && i != p.idx() ==> #[trigger] final(self).kids(i)
                            == old(self).kids(i)
                    &&& forall|i: int|
                        old(self).is_live(i) ==> #[trigger] final(self).entity_of(i) == old(
                            self,
                        ).entity_of(i)
                    &&& forall|i: int|
                        old(self).is_live(i) && i != 0 ==> #[trigger] final(self).parent_of(i)
                            == old(self).parent_of(i)
                    &&& final(self).n() == (if entity.idx() == old(self).n() {
                        old(self).n() + 1
                    } else {
                        old(self).n()
                    })
                },
                None => *final(self) == *old(self),
            },
    {
        let p = match parent {
            Some(p) => p,
            None => {
                return ;
            },
        };
        let i = entity.index_usize();
        if i == self.live.len() {
            self.ent.push(entity);
            self.parent.push(p.index);
            self.children.push(Vec::new());
            self.live.push(true);
        } else {
            self.ent.set(i, entity);
            self.parent.set(i, p.index);
            self.live.set(i, true);
        }
        let pi = p.index_usize();
        let mut plist: Vec<u32> = Vec::new();
        core::mem::swap(&mut plist, &mut self.children[pi]);
        proof {
            assert(self.children@[pi as int]@.len() == 0);
        }
        plist.push(entity.index);
        self.children.set(pi, plist);
        proof {
            self.depth = Ghost(self.depth@.insert(i as int, (old(self).depth@[p.idx()] + 1) as nat));
            self.ops = Ghost((self.ops@ + 1) as nat);
        }
        proof {
            let newh = *self;
            let oldh = *old(self);
            let ii = i as int;
            assert(p.idx() != ii);
            assert(newh.kids(p.idx()) =~= oldh.kids(p.idx()).push(entity.idx()));
            assert(newh.kids(ii) =~= Seq::<int>::empty()) by {
                if ii < oldh.n() {
                    assert(oldh.kids(ii).len() == 0);
                }
            }
            assert forall|j: int|
                0 <= j < oldh.n() && j != p.idx() implies #[trigger] newh.kids(j) == oldh.kids(
                j,
            ) by {
                assert(newh.children@[j] == oldh.children@[j]);
            }
            assert forall|j: int| oldh.is_live(j) implies #[trigger] newh.entity_of(j)
                == oldh.entity_of(j) && newh.is_live(j) by {}
            assert forall|j: int| oldh.is_live(j) && j != 0 implies #[trigger] newh.parent_of(j)
                == oldh.parent_of(j) by {}
            // well-formedness of the grown tree
            assert forall|j: int| newh.is_live(j) implies (#[trigger] newh.entity_of(j)).idx()
                == j by {
                if j != ii {
                    assert(oldh.is_live(j));
                }
            }
            assert forall|j: int|
                #![trigger newh.parent_of(j)]
                newh.is_live(j) && j != 0 implies {
                &&& newh.is_live(newh.parent_of(j))
                &&& newh.depth_of(j) == newh.depth_of(newh.parent_of(j)) + 1
                &&& newh.kids(newh.parent_of(j)).contains(j)
            } by {
                if j == ii {
                    assert(newh.parent_of(ii) == p.idx());
                    assert(newh.kids(p.idx())[newh.kids(p.idx()).len() - 1] == ii);
                } else {
                    assert(oldh.is_live(j));
                    assert(oldh.kids(oldh.parent_of(j)).contains(j));
                    let kk = choose|kk: int|
                        0 <= kk < oldh.kids(oldh.parent_of(j)).len() && oldh.kids(
                            oldh.parent_of(j),
                        )[kk] == j;
                    if oldh.parent_of(j) == p.idx() {
                        assert(newh.kids(p.idx())[kk] == j);
                    } else {
                        assert(newh.kids(newh.parent_of(j))[kk] == j);
                    }
                }
            }
            assert forall|j: int| newh.is_live(j) implies #[trigger] newh.depth_of(j)
                <= newh.ops_spec() by {
                if j != ii {
                    assert(oldh.depth_of(j) <= oldh.ops_spec());
                } else {
                    assert(oldh.depth_of(p.idx()) <= oldh.ops_spec());
                }
            }
            assert forall|j: int, k: int|
                #![trigger newh.kids(j)[k]]
                newh.is_live(j) && 0 <= k < newh.kids(j).len() implies {
                &&& 0 < newh.kids(j)[k] < newh.n()
                &&& newh.is_live(newh.kids(j)[k])
                &&& newh.parent_of(newh.kids(j)[k]) == j
            } by {
                if j == ii {
                    assert(newh.kids(j).len() == 0);
                } else if j == p.idx() && k == newh.kids(j).len() - 1 {
                    assert(newh.kids(j)[k] == ii);
                } else {
                    assert(oldh.is_live(j));
                    assert(oldh.kids(j)[k] == newh.kids(j)[k]);
                    assert(oldh.is_live(oldh.kids(j)[k]));
                    assert(oldh.kids(j)[k] != ii);
                }
            }
            assert forall|j: int, k1: int, k2: int|
                newh.is_live(j) && 0 <= k1 < k2 < newh.kids(j).len() implies #[trigger] newh.kids(
                j,
            )[k1] != #[trigger] newh.kids(j)[k2] by {
                if j == p.idx() {
                    assert(oldh.kids(j)[k1] == newh.kids(j)[k1]);
                    assert(oldh.is_live(oldh.kids(j)[k1]));
                    if k2 == newh.kids(j).len() - 1 {
                        assert(oldh.kids(j)[k1] != ii);
                    } else {
                        assert(oldh.kids(j)[k2] == newh.kids(j)[k2]);
                    }
                } else if j == ii {
                } else {
                    assert(oldh.is_live(j));
                    assert(oldh.kids(j) == newh.kids(j));
                }
            }
            assert forall|j: int|
                0 <= j < newh.n() && !newh.is_live(j) implies (#[trigger] newh.kids(j)).len()
                == 0 by {
                assert(!oldh.is_live(j));
                assert(j < oldh.n() ==> oldh.kids(j).len() == 0);
            }
            assert(newh.wf());
        }
    }

    /// Collects the subtree of slot `i` in pre-order into `out`.
    ///
    /// Nothing already in `out` may lie in that subtree, so that the final
    /// vector stays duplicate-free.
    #[verifier::rlimit(100)]
    fn collect_rec(&self, i: u32, out: &mut Vec<Entity>)
        requires
            self.wf(),
            self.is_live(i as int),
            forall|m: int|
                0 <= m < old(out)@.len() ==> !self.is_desc((#[trigger] old(out)@[m]).idx(),
                i as int),
            forall|m: int|
                0 <= m < old(out)@.len() ==> self.is_live((#[trigger] old(out)@[m]).idx()) && old(
                    out,
                )@[m] == self.entity_of(old(out)@[m].idx()),
            forall|m1: int, m2: int|
                0 <= m1 < m2 < old(out)@.len() ==> (#[trigger] old(out)@[m1]).idx() != (
                #[trigger] old(out)@[m2]).idx(),
        ensures
            final(out)@.len() > old(out)@.len(),
            final(out)@.subrange(0, old(out)@.len() as int) == old(out)@,
            final(out)@[old(out)@.len() as int] == self.entity_of(i as int),
            forall|m: int|
                old(out)@.len() <= m < final(out)@.len() ==> self.is_desc(
                    (#[trigger] final(out)@[m]).idx(),
                    i as int,
                ) && final(out)@[m] == self.entity_of(final(out)@[m].idx()),
            forall|m1: int, m2: int|
                0 <= m1 < m2 < final(out)@.len() ==> (#[trigger] final(out)@[m1]).idx() != (
                #[trigger] final(out)@[m2]).idx(),
            // closure, in order: every collected node's children appear later
            children_after(*self, final(out)@, old(out)@.len() as int),
        decreases self.ops_spec() - self.depth_of(i as int),
    {
        proof {
            assert(self.anc(i as int, 0) == i as int);
            assert(self.is_desc(i as int, i as int));
            assert(self.entity_of(i as int).idx() == i as int);
        }
        out.push(self.ent[i as usize]);
        let ghost base = old(out)@.len() as int;
        let nkids = self.children[i as usize].len();
        proof {
            assert forall|m: int, j: int|
                #![trigger self.is_desc(out@[m].idx(), self.kids(i as int)[j])]
                0 <= m < out@.len() && 0 <= j < nkids implies !self.is_desc(
                out@[m].idx(),
                self.kids(i as int)[j],
            ) by {
                let c = self.kids(i as int)[j];
                if self.is_desc(out@[m].idx(), c) {
                    if m < base {
                        self.lemma_desc_step(out@[m].idx(), c, i as int);
                        assert(out@[m] == old(out)@[m]);
                    } else {
                        // the head cannot lie under its own child
                        let kk = choose|kk: nat| self.anc(i as int, kk) == c;
                        self.lemma_anc_depth(i as int, kk);
                    }
                }
            }
        }
        let mut k: usize = 0;
        #[verifier::rlimit(100)]
        while k < nkids
            invariant
                self.wf(),
                self.is_live(i as int),
                nkids == self.kids(i as int).len(),
                k <= nkids,
                out@.len() > base,
                base == old(out)@.len(),
                out@.subrange(0, base) == old(out)@,
                out@[base] == self.entity_of(i as int),
                forall|m: int|
                    0 <= m < old(out)@.len() ==> !self.is_desc((#[trigger] old(out)@[m]).idx(),
                    i as int),
                forall|m: int|
                    0 <= m < old(out)@.len() ==> self.is_live((#[trigger] old(out)@[m]).idx())
                        && old(out)@[m] == self.entity_of(old(out)@[m].idx()),
                forall|m: int|
                    base <= m < out@.len() ==> self.is_desc((#[trigger] out@[m]).idx(), i as int)
                        && out@[m] == self.entity_of(out@[m].idx()),
                forall|m1: int, m2: int|
                    0 <= m1 < m2 < out@.len() ==> (#[trigger] out@[m1]).idx() != (
                    #[trigger] out@[m2]).idx(),
                // children of already-seen children are in, strictly later
                forall|m: int, j: int|
                    #![trigger self.kids(out@[m].idx())[j]]
                    base < m < out@.len() && 0 <= j < self.kids(out@[m].idx()).len() ==> exists|
                        m2: int,
                    |
                        m < m2 < out@.len() && (#[trigger] out@[m2]).idx() == self.kids(
                            out@[m].idx(),
                        )[j],
                forall|j: int|
                    #![trigger self.kids(i as int)[j]]
                    0 <= j < k ==> exists|m2: int|
                        base < m2 < out@.len() && (out@[m2]).idx() == self.kids(i as int)[j],
                // nothing collected so far lies under a child not yet visited
                forall|m: int, j: int|
                    #![trigger self.is_desc(out@[m].idx(), self.kids(i as int)[j])]
                    0 <= m < out@.len() && k <= j < nkids ==> !self.is_desc(
                        out@[m].idx(),
                        self.kids(i as int)[j],
                    ),
            decreases nkids - k,
        {
            let c = self.children[i as usize][k];
            proof {
                assert(self.kids(i as int)[k as int] == c as int);
                assert forall|m: int| 0 <= m < out@.len() implies !self.is_desc(
                    (#[trigger] out@[m]).idx(),
                    c as int,
                ) by {
                    assert(!self.is_desc(out@[m].idx(), self.kids(i as int)[k as int]));
                }
                assert forall|m: int| 0 <= m < base implies out@[m] == old(out)@[m] by {
                    assert(out@.subrange(0, base)[m] == out@[m]);
                }
                assert(self.entity_of(i as int).idx() == i as int);
            }
            let ghost pre = out@;
            self.collect_rec(c, out);
            proof {
                assert(out@.subrange(0, base) =~= old(out)@);
                assert forall|m: int| base <= m < out@.len() implies self.is_desc(
                    (#[trigger] out@[m]).idx(),
                    i as int,
                ) && out@[m] == self.entity_of(out@[m].idx()) by {
                    if m >= pre.len() {
                        self.lemma_desc_step(out@[m].idx(), c as int, i as int);
                    } else {
                        assert(out@[m] == pre[m]);
                    }
                }
                assert forall|m: int, j: int|
                    #![trigger self.is_desc(out@[m].idx(), self.kids(i as int)[j])]
                    0 <= m < out@.len() && k + 1 <= j < nkids implies !self.is_desc(
                    out@[m].idx(),
                    self.kids(i as int)[j],
                ) by {
                    if m < pre.len() {
                        assert(out@[m] == pre[m]);
                        assert(!self.is_desc(pre[m].idx(), self.kids(i as int)[j]));
                    } else {
                        // the new entries lie under child k, not under a later sibling
                        assert(self.is_desc(out@[m].idx(), c as int));
                        if self.is_desc(out@[m].idx(), self.kids(i as int)[j]) {
                            self.lemma_equal_depth_disjoint(
                                c as int,
                                self.kids(i as int)[j],
                                out@[m].idx(),
                            );
                        }
                    }
                }
                assert forall|m: int, j: int|
                    #![trigger self.kids(out@[m].idx())[j]]
                    base < m < out@.len() && 0 <= j < self.kids(out@[m].idx()).len() implies exists|
                        m2: int,
                    |
                        m < m2 < out@.len() && (#[trigger] out@[m2]).idx() == self.kids(
                            out@[m].idx(),
                        )[j] by {
                    if m < pre.len() {
                        assert(out@[m] == pre[m]);
                        let m2 = choose|m2: int|
                            m < m2 < pre.len() && (pre[m2]).idx() == self.kids(pre[m].idx())[j];
                        assert(out@[m2] == pre[m2]);
                    } else {
                        assert(children_after(*self, out@, pre.len() as int));
                        assert(self.kids(out@[m].idx()).contains(self.kids(out@[m].idx())[j]));
                        let m2 = choose|m2: int|
                            m < m2 < out@.len() && (#[trigger] out@[m2]).idx()
                                == self.kids(out@[m].idx())[j];
                        assert(m < m2);
                    }
                }
                assert forall|j: int|
                    #![trigger self.kids(i as int)[j]]
                    0 <= j < k + 1 implies exists|m2: int|
                    base < m2 < out@.len() && (out@[m2]).idx() == self.kids(i as int)[j] by {
                    if j < k {
                        let m2 = choose|m2: int|
                            base < m2 < pre.len() && (pre[m2]).idx() == self.kids(i as int)[j];
                        assert(out@[m2] == pre[m2]);
                    } else {
                        assert(out@[pre.len() as int].idx() == c as int);
                    }
                }
            }
            k = k + 1;
        }
        proof {
            assert(out@[base].idx() == i as int);
            assert forall|m: int, c: int|
                #![trigger self.kids(out@[m].idx()).contains(c)]
                base <= m < out@.len() && self.kids(out@[m].idx()).contains(c) implies exists|
                    m2: int,
                |
                    m < m2 < out@.len() && (#[trigger] out@[m2]).idx() == c by {
                let j = choose|j: int|
                    0 <= j < self.kids(out@[m].idx()).len() && self.kids(out@[m].idx())[j] == c;
                if m == base {
                    assert(self.kids(out@[m].idx()) == self.kids(i as int));
                    assert(self.kids(i as int)[j] == self.kids(out@[m].idx())[j]);
                    assert(exists|m2: int|
                        base < m2 < out@.len() && (out@[m2]).idx() == self.kids(i as int)[j]);
                    let m2 = choose|m2: int|
                        base < m2 < out@.len() && (out@[m2]).idx() == self.kids(i as int)[j];
                    assert(m < m2 < out@.len() && out@[m2].idx() == c);
                } else {
                    assert(base < m < out@.len());
                    let target = self.kids(out@[m].idx())[j];
                    assert(exists|m2: int|
                        m < m2 < out@.len() && (#[trigger] out@[m2]).idx() == self.kids(
                            out@[m].idx(),
                        )[j]);
                    let m2 = choose|m2: int|
                        m < m2 < out@.len() && (#[trigger] out@[m2]).idx() == self.kids(
                            out@[m].idx(),
                        )[j];
                    assert(m < m2 < out@.len() && out@[m2].idx() == c);
                }
            }
            assert(children_after(*self, out@, base));
        }
    }

    /// The subtree of `e` in pre-order: `e` first, then each child's subtree
    /// in sibling order. The result is exactly the set of live descendants
    /// of `e`, without duplicates.
    pub fn collect_subtree(&self, e: Entity) -> (r: Vec<Entity>)
        requires
            self.wf(),
            self.is_live(e.idx()),
            self.entity_of(e.idx()) == e,
        ensures
            r@.len() >= 1,
            r@[0] == e,
            forall|m: int|
                0 <= m < r@.len() ==> self.is_desc((#[trigger] r@[m]).idx(), e.idx()) && r@[m]
                    == self.entity_of(r@[m].idx()),
            forall|m1: int, m2: int|
                0 <= m1 < m2 < r@.len() ==> (#[trigger] r@[m1]).idx() != (#[trigger] r@[m2]).idx(),
            forall|d: int|
                self.is_desc(d, e.idx()) ==> exists|m: int|
                    0 <= m < r@.len() && (#[trigger] r@[m]).idx() == d,
            // pre-order: every node's children appear after it
            children_after(*self, r@, 0),
    {
        let mut out: Vec<Entity> = Vec::new();
        self.collect_rec(e.index, &mut out);
        proof {
            let s = Seq::new(out@.len(), |m: int| out@[m].idx());
            assert forall|n: int, j: int|
                #![trigger self.kids(n)[j]]
                s.contains(n) && self.is_live(n) && 0 <= j < self.kids(n).len() implies s.contains(
                self.kids(n)[j],
            ) by {
                let m = choose|m: int| 0 <= m < s.len() && s[m] == n;
                assert(out@[m].idx() == n);
                let m2 = choose|m2: int|
                    m < m2 < out@.len() && (#[trigger] out@[m2]).idx() == self.kids(
                        out@[m].idx(),
                    )[j];
                assert(s[m2] == self.kids(n)[j]);
            }
            assert(s[0] == e.idx());
            assert(s.contains(e.idx()));
            assert forall|d: int| self.is_desc(d, e.idx()) implies exists|m: int|
                0 <= m < out@.len() && (#[trigger] out@[m]).idx() == d by {
                let k = choose|k: nat| self.anc(d, k) == e.idx();
                self.lemma_closure_complete(s, e.idx(), d, k);
                let m = choose|m: int| 0 <= m < s.len() && s[m] == d;
                assert(out@[m].idx() == d);
            }
        }
        out
    }

    /// Removes `e` and its whole subtree, reporting the removed entities in
    /// pre-order. Everything outside that subtree is untouched, except that
    /// `e` leaves its parent's child list.
    pub fn remove_subtree(&mut self, e: Entity) -> (r: Vec<Entity>)
        requires
            old(self).wf(),
            old(self).is_live(e.idx()),
            old(self).entity_of(e.idx()) == e,
            e.idx() != 0,
        ensures
            final(self).wf(),
            r@.len() >= 1,
            r@[0] == e,
            forall|m: int|
                0 <= m < r@.len() ==> old(self).is_desc((#[trigger] r@[m]).idx(), e.idx())
                    && r@[m] == old(self).entity_of(r@[m].idx()),
            forall|m1: int, m2: int|
                0 <= m1 < m2 < r@.len() ==> (#[trigger] r@[m1]).idx() != (#[trigger] r@[m2]).idx(),
            forall|d: int|
                old(self).is_desc(d, e.idx()) ==> exists|m: int|
                    0 <= m < r@.len() && (#[trigger] r@[m]).idx() == d,
            // pre-order: every node's children appear after it
            children_after(*old(self), r@, 0),
            forall|i: int|
                final(self).is_live(i) <==> (old(self).is_live(i) && !old(self).is_desc(
                    i,
                    e.idx(),
                )),
            forall|i: int|
                final(self).is_live(i) ==> #[trigger] final(self).entity_of(i) == old(
                    self,
                ).entity_of(i) && final(self).parent_of(i) == old(self).parent_of(i),
            forall|i: int|
                final(self).is_live(i) && i != old(self).parent_of(e.idx())
                    ==> #[trigger] final(self).kids(i) == old(self).kids(i),
            final(self).kids(old(self).parent_of(e.idx())) == old(self).kids(
                old(self).parent_of(e.idx()),
            ).remove_value(e.idx()),
            final(self).n() == old(self).n(),
    {
        let list = self.collect_subtree(e);
        let p = self.parent[e.index as usize] as usize;
        // detach e from its parent's child list
        let mut plist: Vec<u32> = Vec::new();
        core::mem::swap(&mut plist, &mut self.children[p]);
        let ghost oldkids = old(self).kids(p as int);
        let mut pos: usize = 0;
        while pos < plist.len() && plist[pos] != e.index
            invariant
                pos <= plist@.len(),
                plist@ == old(self).children@[p as int]@,
                forall|m: int| 0 <= m < pos ==> plist@[m] != e.index,
            decreases plist@.len() - pos,
        {
            pos = pos + 1;
        }
        proof {
            assert(oldkids.contains(e.idx()));
            let kk = choose|kk: int| 0 <= kk < oldkids.len() && oldkids[kk] == e.idx();
            assert(plist@[kk] == e.index);
            assert(pos <= kk);
            assert(pos < plist@.len());
            assert(oldkids[pos as int] == e.idx());
            // remove_value removes the first occurrence, which is at pos
            assert(oldkids.index_of_first(e.idx()) == Some(pos as int)) by {
                oldkids.index_of_first_ensures(e.idx());
            }
        }
        plist.remove(pos);
        self.children.set(p, plist);
        let ghost mid = *self;
        proof {
            assert forall|mm: int| 0 <= mm < list@.len() implies 0 <= (#[trigger] list@[mm]).idx()
                < mid.n() by {
                assert(old(self).is_live(list@[mm].idx()));
            }
        }
        // now mark the whole subtree dead and clear its child lists
        let mut m: usize = 0;
        while m < list.len()
            invariant
                list@.len() >= 1,
                m <= list@.len(),
                self.ent@ == mid.ent@,
                self.parent@ == mid.parent@,
                self.live@.len() == mid.live@.len(),
                self.children@.len() == mid.children@.len(),
                mid.children@.len() == mid.live@.len(),
                self.depth == mid.depth,
                self.ops == mid.ops,
                forall|i: int|
                    0 <= i < self.live@.len() && !seen_idx(list@.subrange(0, m as int), i)
                        ==> self.live@[i] == mid.live@[i] && self.children@[i]
                        == mid.children@[i],
                forall|mm: int|
                    0 <= mm < m ==> !self.is_live((#[trigger] list@[mm]).idx()) && self.kids(
                        list@[mm].idx(),
                    ).len() == 0,
                forall|mm: int|
                    0 <= mm < list@.len() ==> 0 <= (#[trigger] list@[mm]).idx() < mid.n(),
            decreases list@.len() - m,
        {
            let idx = list[m].index_usize();
            self.live.set(idx, false);
            self.children.set(idx, Vec::new());
            proof {
                assert(self.kids(idx as int) =~= Seq::<int>::empty());
                assert(list@.subrange(0, m as int + 1)[m as int] == list@[m as int]);
                assert(seen_idx(list@.subrange(0, m as int + 1), idx as int));
                assert forall|i: int|
                    0 <= i < self.live@.len() && !seen_idx(list@.subrange(0, m as int + 1), i)
                        implies self.live@[i] == mid.live@[i] && self.children@[i]
                    == mid.children@[i] by {
                    assert(!seen_idx(list@.subrange(0, m as int), i)) by {
                        if seen_idx(list@.subrange(0, m as int), i) {
                            let mm = choose|mm: int|
                                0 <= mm < m && (#[trigger] list@.subrange(0, m as int)[mm]).idx()
                                    == i;
                            assert(list@.subrange(0, m as int + 1)[mm].idx() == i);
                        }
                    }
                }
                assert forall|mm: int| 0 <= mm < m + 1 implies !self.is_live(
                    (#[trigger] list@[mm]).idx(),
                ) && self.kids(list@[mm].idx()).len() == 0 by {
                    if mm < m {
                        assert(list@[mm].idx() != idx as int || list@[mm].idx() == idx as int);
                    }
                }
            }
            m = m + 1;
        }
        proof {
            let newh = *self;
            let oldh = *old(self);
            assert(list@.subrange(0, list@.len() as int) =~= list@);
            // membership in the removed list is exactly descent from e
            assert forall|i: int| 0 <= i < newh.n() implies (newh.is_live(i) <==> (oldh.is_live(i)
                && !oldh.is_desc(i, e.idx()))) by {
                if seen_idx(list@, i) {
                    let mm = choose|mm: int| 0 <= mm < list@.len() && (#[trigger] list@[mm]).idx() == i;
                    assert(oldh.is_desc(i, e.idx()));
                } else {
                    if oldh.is_desc(i, e.idx()) {
                        let mm = choose|mm: int|
                            0 <= mm < list@.len() && (#[trigger] list@[mm]).idx() == i;
                        assert(seen_idx(list@, i));
                    }
                }
            }
            // the root survives
            assert(newh.is_live(0)) by {
                if oldh.is_desc(0, e.idx()) {
                    let k = choose|k: nat| oldh.anc(0, k) == e.idx();
                    oldh.lemma_anc_depth(0, k);
                }
            }
            assert(newh.kids(p as int) =~= oldkids.remove(pos as int)) by {
                assert(!seen_idx(list@, p as int)) by {
                    if oldh.is_desc(p as int, e.idx()) {
                        oldh.lemma_desc_step(p as int, e.idx(), p as int);
                        // p descends from e, and e's parent is p: depth contradiction
                        let k = choose|k: nat| oldh.anc(p as int, k) == e.idx();
                        oldh.lemma_anc_depth(p as int, k);
                    }
                }
            }
            assert(oldkids.remove_value(e.idx()) == oldkids.remove(pos as int));
            assert forall|i: int| newh.is_live(i) && i != p as int implies #[trigger] newh.kids(i)
                == oldh.kids(i) by {
                assert(!seen_idx(list@, i));
            }
            // well-formedness of the result
            assert forall|i: int|
                #![trigger newh.parent_of(i)]
                newh.is_live(i) && i != 0 implies {
                &&& newh.is_live(newh.parent_of(i))
                &&& newh.depth_of(i) == newh.depth_of(newh.parent_of(i)) + 1
                &&& newh.kids(newh.parent_of(i)).contains(i)
            } by {
                let pi = oldh.parent_of(i);
                assert(newh.is_live(pi)) by {
                    if oldh.is_desc(pi, e.idx()) {
                        assert(oldh.is_desc(i, e.idx())) by {
                            let k = choose|k: nat| oldh.anc(pi, k) == e.idx();
                            oldh.lemma_anc_add(i, 1, k);
                            assert(oldh.anc(i, 1) == oldh.anc(oldh.parent_of(i), 0));
                            assert(oldh.anc(i, (1 + k) as nat) == e.idx());
                        }
                    }
                }
                assert(newh.kids(pi).contains(i)) by {
                    assert(oldh.kids(pi).contains(i));
                    let kk = choose|kk: int| 0 <= kk < oldh.kids(pi).len() && oldh.kids(pi)[kk] == i;
                    if pi == p as int {
                        assert(i != e.idx());
                        assert(oldkids[kk] == i);
                        if kk < pos as int {
                            assert(newh.kids(pi)[kk] == i);
                        } else {
                            assert(kk > pos as int);
                            assert(newh.kids(pi)[kk - 1] == i);
                        }
                    } else {
                        assert(newh.kids(pi)[kk] == i);
                    }
                }
            }
            assert forall|i: int, k: int|
                #![trigger newh.kids(i)[k]]
                newh.is_live(i) && 0 <= k < newh.kids(i).len() implies {
                &&& 0 < newh.kids(i)[k] < newh.n()
                &&& newh.is_live(newh.kids(i)[k])
                &&& newh.parent_of(newh.kids(i)[k]) == i
            } by {
                let c = newh.kids(i)[k];
                assert(oldh.kids(i).contains(c)) by {
                    if i == p as int {
                        if k < pos as int {
                            assert(oldkids[k] == c);
                        } else {
                            assert(oldkids[k + 1] == c);
                        }
                    } else {
                        assert(oldh.kids(i)[k] == c);
                    }
                }
                let kk = choose|kk: int| 0 <= kk < oldh.kids(i).len() && oldh.kids(i)[kk] == c;
                assert(oldh.is_live(c) && oldh.parent_of(c) == i);
                assert(newh.is_live(c)) by {
                    assert(c != e.idx()) by {
                        if i == p as int {
                            if k < pos as int {
                                assert(oldkids[k] == c && oldkids[pos as int] == e.idx());
                            } else {
                                assert(oldkids[k + 1] == c && oldkids[pos as int] == e.idx());
                            }
                        } else {
                            if c == e.idx() {
                                assert(oldh.parent_of(e.idx()) == p as int);
                            }
                        }
                    }
                    if oldh.is_desc(c, e.idx()) {
                        let kd = choose|kd: nat| oldh.anc(c, kd) == e.idx();
                        if kd == 0 {
                        } else {
                            assert(oldh.anc(c, kd) == oldh.anc(i, (kd - 1) as nat));
                            assert(oldh.is_desc(i, e.idx()));
                        }
                    }
                }
            }
            assert forall|i: int, k1: int, k2: int|
                newh.is_live(i) && 0 <= k1 < k2 < newh.kids(i).len() implies #[trigger] newh.kids(
                i,
            )[k1] != #[trigger] newh.kids(i)[k2] by {
                if i == p as int {
                    let j1: int = if k1 < pos as int {
                        k1
                    } else {
                        k1 + 1
                    };
                    let j2: int = if k2 < pos as int {
                        k2
                    } else {
                        k2 + 1
                    };
                    assert(newh.kids(i)[k1] == oldkids[j1]);
                    assert(newh.kids(i)[k2] == oldkids[j2]);
                }
            }
            assert forall|i: int| newh.is_live(i) implies oldh.is_live(i) by {
                if seen_idx(list@, i) {
                    let mm = choose|mm: int|
                        0 <= mm < list@.len() && (#[trigger] list@[mm]).idx() == i;
                    assert(!newh.is_live(list@[mm].idx()));
                } else {
                    assert(newh.live@[i] == mid.live@[i]);
                }
            }
            assert forall|i: int| newh.is_live(i) implies (#[trigger] newh.entity_of(i)).idx()
                == i by {
                assert(oldh.is_live(i));
                assert(oldh.entity_of(i).idx() == i);
            }
            assert forall|i: int| newh.is_live(i) implies #[trigger] newh.depth_of(i)
                <= newh.ops_spec() by {
                assert(oldh.is_live(i));
                assert(oldh.depth_of(i) <= oldh.ops_spec());
            }
            assert forall|i: int|
                0 <= i < newh.n() && !newh.is_live(i) implies (#[trigger] newh.kids(i)).len()
                == 0 by {
                if seen_idx(list@, i) {
                    let mm = choose|mm: int|
                        0 <= mm < list@.len() && (#[trigger] list@[mm]).idx() == i;
                    assert(!newh.is_live(list@[mm].idx()) && newh.kids(list@[mm].idx()).len()
                        == 0);
                } else {
                    assert(newh.children@[i] == mid.children@[i]);
                    assert(newh.live@[i] == mid.live@[i]);
                    assert(!oldh.is_live(i));
                    if i == p as int {
                        assert(oldh.is_live(i));
                    } else {
                        assert(mid.children@[i] == oldh.children@[i]);
                        assert(oldh.kids(i).len() == 0);
                    }
                }
            }
            assert(newh.wf());
        }
        list
    }
}

/// Pre-order shape: from position `lo` on, every node's children appear at
/// strictly later positions of `s`.
pub open spec fn children_after(h: Hierarchy, s: Seq<Entity>, lo: int) -> bool {
    forall|m: int, c: int|
        #![trigger h.kids(s[m].idx()).contains(c)]
        lo <= m < s.len() && h.kids(s[m].idx()).contains(c) ==> exists|m2: int|
            m < m2 < s.len() && (#[trigger] s[m2]).idx() == c
}

/// Whether some entity in `s` has index `i`.
pub open spec fn seen_idx(s: Seq<Entity>, i: int) -> bool {
    exists|m: int| 0 <= m < s.len() && (#[trigger] s[m]).idx() == i
}

} // verus!
