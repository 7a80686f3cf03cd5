//! Property animation: one generic interpolation engine shared by every
//! animatable property type.
//!
//! An [`AnimationDesc`] is a list of keyframes over the unit interval
//! (times in thousandths), a duration and a persistence flag. An
//! [`AnimatableStorage`] wraps the property's base values and the running
//! instances; each frame, [`AnimatableStorage::animate`] advances every
//! instance and resolves completed ones: a persistent animation overwrites
//! the base value with its final keyframe, a non-persistent one falls back
//! to the untouched base value.

use vstd::prelude::*;

use crate::entity::Entity;
use crate::storage::Storage;

verus! {

/// Keyframe times are numerators over this denominator.
pub const FRAC_ONE: u64 = 1000;

/// A value that can be linearly interpolated.
pub trait Lerp: Sized + Copy {
    /// The value `num/den` of the way from `a` to `b`.
    spec fn lerp_spec(a: Self, b: Self, num: int, den: int) -> Self;

    fn lerp(a: Self, b: Self, num: u64, den: u64) -> (r: Self)
        requires
            0 < den <= FRAC_ONE,
            num <= den,
        ensures
            r == Self::lerp_spec(a, b, num as int, den as int),
    ;
}

/// Truncated interpolation between two integers, kept within `[a, b]`.
pub open spec fn lerp_int(a: int, b: int, num: int, den: int) -> int {
    if b >= a {
        a + (b - a) * num / den
    } else {
        a - (a - b) * num / den
    }
}

/// The interpolant stays between its endpoints.
pub proof fn lemma_lerp_int_bounds(a: int, b: int, num: int, den: int)
    requires
        0 < den,
        0 <= num <= den,
    ensures
        b >= a ==> a <= lerp_int(a, b, num, den) <= b,
        b < a ==> b <= lerp_int(a, b, num, den) <= a,
{
    if b >= a {
        assert(0 <= (b - a) * num <= (b - a) * den) by (nonlinear_arith)
            requires
                0 <= num <= den,
                b >= a,
        ;
        assert(0 <= (b - a) * num / den <= b - a) by (nonlinear_arith)
            requires
                0 < den,
                0 <= (b - a) * num <= (b - a) * den,
        ;
    } else {
        assert(0 <= (a - b) * num <= (a - b) * den) by (nonlinear_arith)
            requires
                0 <= num <= den,
                b < a,
        ;
        assert(0 <= (a - b) * num / den <= a - b) by (nonlinear_arith)
            requires
                0 < den,
                0 <= (a - b) * num <= (a - b) * den,
        ;
    }
}

impl Lerp for i64 {
    open spec fn lerp_spec(a: i64, b: i64, num: int, den: int) -> i64 {
        lerp_int(a as int, b as int, num, den) as i64
    }

    fn lerp(a: i64, b: i64, num: u64, den: u64) -> (r: i64) {
        proof {
            lemma_lerp_int_bounds(a as int, b as int, num as int, den as int);
        }
        if b >= a {
            let delta: i128 = b as i128 - a as i128;
            proof {
                assert(0 <= (delta as int) * (num as int) <= (delta as int) * (FRAC_ONE as int))
                    by (nonlinear_arith)
                    requires
                        0 <= delta,
                        0 <= num <= FRAC_ONE,
                ;
                assert(0 <= (delta as int) * (num as int) / (den as int) <= (delta as int) * (
                num as int)) by (nonlinear_arith)
                    requires
                        0 < den,
                        0 <= (delta as int) * (num as int),
                ;
            }
            (a as i128 + delta * (num as i128) / (den as i128)) as i64
        } else {
            let delta: i128 = a as i128 - b as i128;
            proof {
                assert(0 <= (delta as int) * (num as int) <= (delta as int) * (FRAC_ONE as int))
                    by (nonlinear_arith)
                    requires
                        0 <= delta,
                        0 <= num <= FRAC_ONE,
                ;
                assert(0 <= (delta as int) * (num as int) / (den as int) <= (delta as int) * (
                num as int)) by (nonlinear_arith)
                    requires
                        0 < den,
                        0 <= (delta as int) * (num as int),
                ;
            }
            (a as i128 - delta * (num as i128) / (den as i128)) as i64
        }
    }
}

/// One keyframe: a time as thousandths of the duration, and the value then.
#[derive(Clone, Copy, Debug)]
pub struct Keyframe<T> {
    pub time: u64,
    pub value: T,
}

/// A reusable animation: keyframes over the unit interval, a duration, and
/// whether the final value persists as the new base value.
#[derive(Clone, Debug)]
pub struct AnimationDesc<T> {
    pub keyframes: Vec<Keyframe<T>>,
    pub duration_ms: u64,
    pub persistent: bool,
}

impl<T> AnimationDesc<T> {
    /// Keyframes start at 0, end at one (1000), strictly increase, and the
    /// duration is positive.
    pub open spec fn wf(self) -> bool {
        &&& self.keyframes@.len() >= 1
        &&& self.keyframes@[0].time == 0
        &&& self.keyframes@[self.keyframes@.len() - 1].time == FRAC_ONE
        &&& forall|k1: int, k2: int|
            0 <= k1 < k2 < self.keyframes@.len() ==> (#[trigger] self.keyframes@[k1]).time < (
            #[trigger] self.keyframes@[k2]).time
        &&& self.duration_ms > 0
    }

    pub open spec fn last_value(self) -> T {
        self.keyframes@[self.keyframes@.len() - 1].value
    }
}

/// The value of the keyframe track at `frac` thousandths (clamped outside).
pub open spec fn sample<T: Lerp>(kfs: Seq<Keyframe<T>>, frac: int) -> T
    decreases kfs.len(),
{
    if kfs.len() <= 1 || frac <= kfs[0].time {
        kfs[0].value
    } else if frac <= kfs[1].time {
        T::lerp_spec(kfs[0].value, kfs[1].value, frac - kfs[0].time, kfs[1].time - kfs[0].time)
    } else {
        sample(kfs.skip(1), frac)
    }
}

/// A running instance: which entity, which animation, and when it started.
#[derive(Clone, Copy, PartialEq, Eq, Structural, Debug)]
pub struct AnimationInstance {
    pub entity: Entity,
    pub anim: usize,
    pub start_ms: u64,
}

/// Base values of one animatable property plus its animation registry and
/// the running instances.
pub struct AnimatableStorage<T> {
    pub base: Storage<T>,
    pub current: Storage<T>,
    pub descs: Vec<AnimationDesc<T>>,
    pub active: Vec<AnimationInstance>,
}

impl<T: Lerp> AnimatableStorage<T> {
    pub open spec fn wf(self) -> bool {
        &&& self.base.wf()
        &&& self.current.wf()
        &&& forall|k: int|
            0 <= k < self.descs@.len() ==> (#[trigger] self.descs@[k]).wf()
        &&& forall|k: int|
            0 <= k < self.active@.len() ==> (#[trigger] self.active@[k]).anim < self.descs@.len()
        &&& forall|k1: int, k2: int|
            0 <= k1 < k2 < self.active@.len() ==> (#[trigger] self.active@[k1]).entity.idx() != (
            #[trigger] self.active@[k2]).entity.idx()
    }

    /// Whether an instance is running for entity index `i`.
    pub open spec fn animating(self, i: int) -> bool {
        exists|k: int| 0 <= k < self.active@.len() && (#[trigger] self.active@[k]).entity.idx() == i
    }

    /// The value an observer sees for entity index `i`: the interpolated
    /// value while animating, else the base value.
    pub open spec fn value_of(self, i: int) -> T
        recommends
            self.base@.dom().contains(i) || self.current@.dom().contains(i),
    {
        if self.current@.dom().contains(i) {
            self.current@[i]
        } else {
            self.base@[i]
        }
    }

    pub fn new() -> (r: AnimatableStorage<T>)
        ensures
            r.wf(),
            r.base@ == Map::<int, T>::empty(),
            r.current@ == Map::<int, T>::empty(),
            r.descs@.len() == 0,
            r.active@.len() == 0,
    {
        AnimatableStorage {
            base: Storage::new(),
            current: Storage::new(),
            descs: Vec::new(),
            active: Vec::new(),
        }
    }

    /// Sets the base value of `e`.
    pub fn insert(&mut self, e: Entity, value: T)
        requires
            old(self).wf(),
        ensures
            final(self).wf(),
            final(self).base@ == old(self).base@.insert(e.idx(), value),
            final(self).current@ == old(self).current@,
            final(self).descs@ == old(self).descs@,
            final(self).active@ == old(self).active@,
    {
        self.base.insert(e, value);
    }

    /// The base value of `e`, if set.
    pub fn get(&self, e: Entity) -> (r: Option<&T>)
        requires
            self.wf(),
        ensures
            match r {
                Some(v) => self.base@.dom().contains(e.idx()) && *v == self.base@[e.idx()],
                None => !self.base@.dom().contains(e.idx()),
            },
    {
        self.base.get(e)
    }

    /// The currently visible value of `e`: interpolated while animating,
    /// else the base value, else `default`.
    pub fn get_current_or(&self, e: Entity, default: T) -> (r: T)
        requires
            self.wf(),
        ensures
            r == if self.current@.dom().contains(e.idx()) {
                self.current@[e.idx()]
            } else if self.base@.dom().contains(e.idx()) {
                self.base@[e.idx()]
            } else {
                default
            },
    {
        match self.current.get(e) {
            Some(v) => *v,
            None => self.base.get_or(e, default),
        }
    }

    /// Drops every value and instance of `e`.
    pub fn remove(&mut self, e: Entity)
        requires
            old(self).wf(),
        ensures
            final(self).wf(),
            final(self).base@ == old(self).base@.remove(e.idx()),
            final(self).current@ == old(self).current@.remove(e.idx()),
            final(self).descs@ == old(self).descs@,
            !final(self).animating(e.idx()),
    {
        self.base.remove(e);
        self.current.remove(e);
        let mut k: usize = 0;
        let mut found: bool = false;
        let mut pos: usize = 0;
        while k < self.active.len()
            invariant
                pos <= k,
                k <= self.active@.len(),
                found ==> pos < self.active@.len() && self.active@[pos as int].entity.idx()
                    == e.idx(),
                !found ==> forall|m: int|
                    0 <= m < k ==> (#[trigger] self.active@[m]).entity.idx() != e.idx(),
            decreases self.active@.len() - k,
        {
            if !found && self.active[k].entity.index == e.index {
                found = true;
                pos = k;
            }
            k = k + 1;
        }
        if found {
            self.active.remove(pos);
            proof {
                assert forall|m: int| 0 <= m < self.active@.len() implies (
                #[trigger] self.active@[m]).entity.idx() != e.idx() by {
                    if m < pos {
                        assert(self.active@[m] == old(self).active@[m]);
                    } else {
                        assert(self.active@[m] == old(self).active@[m + 1]);
                    }
                }
            }
        }
    }

    /// Registers an animation and returns its handle.
    pub fn add_animation(&mut self, desc: AnimationDesc<T>) -> (r: usize)
        requires
            old(self).wf(),
            desc.wf(),
        ensures
            final(self).wf(),
            final(self).descs@ == old(self).descs@.push(desc),
            r == old(self).descs@.len(),
            final(self).base@ == old(self).base@,
            final(self).current@ == old(self).current@,
            final(self).active@ == old(self).active@,
    {
        let r = self.descs.len();
        self.descs.push(desc);
        r
    }

    /// Starts animation `anim` on `e` at `start_ms`. Any instance already
    /// running on `e` is replaced.
    pub fn play_animation(&mut self, e: Entity, anim: usize, start_ms: u64)
        requires
            old(self).wf(),
            anim < old(self).descs@.len(),
        ensures
            final(self).wf(),
            final(self).base@ == old(self).base@,
            final(self).current@ == old(self).current@,
            final(self).descs@ == old(self).descs@,
            final(self).animating(e.idx()),
            exists|k: int|
                0 <= k < final(self).active@.len() && final(self).active@[k] == (AnimationInstance {
                    entity: e,
                    anim: anim,
                    start_ms: start_ms,
                }),
            forall|i: int|
                i != e.idx() ==> (final(self).animating(i) <==> old(self).animating(i)),
    {
        let mut k: usize = 0;
        let mut found: bool = false;
        let mut pos: usize = 0;
        while k < self.active.len()
            invariant
                self.active@ == old(self).active@,
                pos <= k,
                k <= self.active@.len(),
                found ==> pos < self.active@.len() && self.active@[pos as int].entity.idx()
                    == e.idx(),
                !found ==> forall|m: int|
                    0 <= m < k ==> (#[trigger] self.active@[m]).entity.idx() != e.idx(),
            decreases self.active@.len() - k,
        {
            if !found && self.active[k].entity.index == e.index {
                found = true;
                pos = k;
            }
            k = k + 1;
        }
        let inst = AnimationInstance { entity: e, anim, start_ms };
        if found {
            self.active.set(pos, inst);
            proof {
                assert(self.active@[pos as int] == inst);
                assert forall|i: int| i != e.idx() implies (self.animating(i) <==> old(
                    self,
                ).animating(i)) by {
                    if old(self).animating(i) {
                        let m = choose|m: int|
                            0 <= m < old(self).active@.len() && (#[trigger] old(
                                self,
                            ).active@[m]).entity.idx() == i;
                        assert(self.active@[m].entity.idx() == i);
                    }
                    if self.animating(i) {
                        let m = choose|m: int|
                            0 <= m < self.active@.len() && (#[trigger] self.active@[m]).entity.idx()
                                == i;
                        assert(old(self).active@[m].entity.idx() == i);
                    }
                }
            }
        } else {
            self.active.push(inst);
            proof {
                assert(self.active@[self.active@.len() - 1] == inst);
                assert forall|i: int| i != e.idx() implies (self.animating(i) <==> old(
                    self,
                ).animating(i)) by {
                    if self.animating(i) {
                        let m = choose|m: int|
                            0 <= m < self.active@.len() && (#[trigger] self.active@[m]).entity.idx()
                                == i;
                        if m == self.active@.len() - 1 {
                            assert(self.active@[m] == inst);
                        } else {
                            assert(old(self).active@[m].entity.idx() == i);
                        }
                    }
                    if old(self).animating(i) {
                        let m = choose|m: int|
                            0 <= m < old(self).active@.len() && (#[trigger] old(
                                self,
                            ).active@[m]).entity.idx() == i;
                        assert(self.active@[m].entity.idx() == i);
                    }
                }
            }
        }
    }

    /// Whether any instance is still running.
    pub fn has_animations(&self) -> (r: bool)
        ensures
            r == (self.active@.len() > 0),
    {
        self.active.len() > 0
    }

    /// The clamped fraction (in thousandths) of `desc` elapsed at `now`.
    pub open spec fn frac_at(desc: AnimationDesc<T>, start_ms: u64, now: u64) -> int {
        if now <= start_ms {
            0
        } else if (now - start_ms) >= desc.duration_ms {
            FRAC_ONE as int
        } else {
            (now - start_ms) * (FRAC_ONE as int) / (desc.duration_ms as int)
        }
    }

    /// How one `animate(now)` step transforms the storage: completed
    /// instances are resolved (a persistent one overwrites the base with its
    /// final keyframe; a non-persistent one reverts to the base), running
    /// ones write their interpolated value, and untouched entities keep
    /// everything.
    pub open spec fn animate_rel(pre: Self, post: Self, now: u64) -> bool {
        &&& post.descs@ == pre.descs@
        &&& forall|k: int|
            0 <= k < pre.active@.len() ==> inst_resolved(
                pre,
                post.base@,
                post.current@,
                post.active@,
                #[trigger] pre.active@[k],
                now,
            )
        &&& forall|i: int|
            !pre.animating(i) ==> {
                &&& (#[trigger] post.animating(i)) == false
                &&& (post.base@.dom().contains(i) <==> pre.base@.dom().contains(i))
                &&& (pre.base@.dom().contains(i) ==> post.base@[i] == pre.base@[i])
                &&& (post.current@.dom().contains(i) <==> pre.current@.dom().contains(i))
                &&& (pre.current@.dom().contains(i) ==> post.current@[i] == pre.current@[i])
            }
    }

    /// Advances every running instance to `now`; returns whether any is
    /// still running afterwards.
    pub fn animate(&mut self, now: u64) -> (r: bool)
        requires
            old(self).wf(),
        ensures
            final(self).wf(),
            Self::animate_rel(*old(self), *final(self), now),
            r == (final(self).active@.len() > 0),
    {
        let ghost pre = *self;
        let mut new_active: Vec<AnimationInstance> = Vec::new();
        let mut k: usize = 0;
        while k < self.active.len()
            invariant
                self.base.wf(),
                self.current.wf(),
                self.descs@ == pre.descs@,
                self.active@ == pre.active@,
                pre.wf(),
                k <= self.active@.len(),
                // each kept instance is a still-running earlier one
                forall|m: int|
                    0 <= m < new_active@.len() ==> exists|m2: int|
                        0 <= m2 < k && (#[trigger] new_active@[m]) == pre.active@[m2],
                forall|m1: int, m2: int|
                    0 <= m1 < m2 < new_active@.len() ==> (
                    #[trigger] new_active@[m1]).entity.idx() != (
                    #[trigger] new_active@[m2]).entity.idx(),
                // processed instances already look resolved
                forall|m: int|
                    0 <= m < k ==> inst_resolved(
                        pre,
                        self.base@,
                        self.current@,
                        new_active@,
                        #[trigger] pre.active@[m],
                        now,
                    ),
                // untouched entities keep their values
                forall|i: int|
                    #![trigger entity_in(pre.active@.subrange(0, k as int), i)]
                    !entity_in(pre.active@.subrange(0, k as int), i) ==> {
                        &&& !entity_in(new_active@, i)
                        &&& (self.base@.dom().contains(i) <==> pre.base@.dom().contains(i))
                        &&& (pre.base@.dom().contains(i) ==> self.base@[i] == pre.base@[i])
                        &&& (self.current@.dom().contains(i) <==> pre.current@.dom().contains(i))
                        &&& (pre.current@.dom().contains(i) ==> self.current@[i]
                            == pre.current@[i])
                    },
            decreases self.active@.len() - k,
        {
            let inst = self.active[k];
            let ghost prev_base = self.base@;
            let ghost prev_current = self.current@;
            let ghost prev_active = new_active@;
            let frac = compute_frac(&self.descs[inst.anim], inst.start_ms, now);
            if frac >= FRAC_ONE {
                let desc_last = self.descs[inst.anim].keyframes.len() - 1;
                if self.descs[inst.anim].persistent {
                    let v = self.descs[inst.anim].keyframes[desc_last].value;
                    self.base.insert(inst.entity, v);
                }
                self.current.remove(inst.entity);
            } else {
                proof {
                    let kfs = self.descs@[inst.anim as int].keyframes@;
                    assert forall|kk: int| 0 <= kk < kfs.len() implies (
                    #[trigger] kfs[kk]).time <= FRAC_ONE by {
                        if kk < kfs.len() - 1 {
                            assert(kfs[kk].time < kfs[kfs.len() - 1].time);
                        }
                    }
                }
                let v = sample_exec(&self.descs[inst.anim].keyframes, frac);
                self.current.insert(inst.entity, v);
                new_active.push(inst);
            }
            proof {
                let ki = k as int;
                assert(pre.active@[ki] == inst);
                // distinct entities: earlier instances are other entities
                assert forall|m: int| 0 <= m < ki implies (#[trigger] pre.active@[m]).entity.idx()
                    != inst.entity.idx() by {}
                assert(pre.active@.subrange(0, ki + 1)[ki] == inst);
                assert forall|i: int| !entity_in(pre.active@.subrange(0, ki + 1), i) implies {
                    &&& !entity_in(new_active@, i)
                    &&& (self.base@.dom().contains(i) <==> pre.base@.dom().contains(i))
                    &&& (pre.base@.dom().contains(i) ==> self.base@[i] == pre.base@[i])
                    &&& (self.current@.dom().contains(i) <==> pre.current@.dom().contains(i))
                    &&& (pre.current@.dom().contains(i) ==> self.current@[i] == pre.current@[i])
                } by {
                    assert(!entity_in(pre.active@.subrange(0, ki), i)) by {
                        if entity_in(pre.active@.subrange(0, ki), i) {
                            let m = choose|m: int|
                                0 <= m < ki && (#[trigger] pre.active@.subrange(0, ki)[m]).entity.idx()
                                    == i;
                            assert(pre.active@.subrange(0, ki + 1)[m].entity.idx() == i);
                        }
                    }
                    assert(i != inst.entity.idx());
                    if entity_in(new_active@, i) {
                        let m = choose|m: int|
                            0 <= m < new_active@.len() && (#[trigger] new_active@[m]).entity.idx()
                                == i;
                        if m < prev_active.len() {
                            assert(prev_active[m].entity.idx() == i);
                            assert(entity_in(prev_active, i));
                        } else {
                            assert(new_active@[m] == inst);
                        }
                    }
                }
                assert forall|m: int| 0 <= m < ki + 1 implies inst_resolved(
                    pre,
                    self.base@,
                    self.current@,
                    new_active@,
                    #[trigger] pre.active@[m],
                    now,
                ) by {
                    let pi = pre.active@[m];
                    let i = pi.entity.idx();
                    if m < ki {
                        assert(i != inst.entity.idx());
                        assert(inst_resolved(pre, prev_base, prev_current, prev_active, pi, now));
                        if entity_in(new_active@, i) {
                            let mm = choose|mm: int|
                                0 <= mm < new_active@.len() && (
                                #[trigger] new_active@[mm]).entity.idx() == i;
                            if mm < prev_active.len() {
                                assert(prev_active[mm].entity.idx() == i);
                                assert(entity_in(prev_active, i));
                            } else {
                                assert(new_active@[mm] == inst);
                            }
                        }
                        if entity_in(prev_active, i) {
                            let mm = choose|mm: int|
                                0 <= mm < prev_active.len() && (
                                #[trigger] prev_active[mm]).entity.idx() == i;
                            assert(new_active@[mm].entity.idx() == i);
                            assert(entity_in(new_active@, i));
                        }
                    } else {
                        assert(!entity_in(pre.active@.subrange(0, ki), i)) by {
                            if entity_in(pre.active@.subrange(0, ki), i) {
                                let mm = choose|mm: int|
                                    0 <= mm < ki && (#[trigger] pre.active@.subrange(
                                        0,
                                        ki,
                                    )[mm]).entity.idx() == i;
                                assert(pre.active@[mm].entity.idx() == i);
                            }
                        }
                        let frac_s = Self::frac_at(pre.descs@[inst.anim as int], inst.start_ms, now);
                        if frac_s >= FRAC_ONE {
                            assert(!entity_in(new_active@, i)) by {
                                if entity_in(new_active@, i) {
                                    let mm = choose|mm: int|
                                        0 <= mm < new_active@.len() && (
                                        #[trigger] new_active@[mm]).entity.idx() == i;
                                    let m2 = choose|m2: int|
                                        0 <= m2 < ki && new_active@[mm] == pre.active@[m2];
                                }
                            }
                        } else {
                            assert(new_active@[new_active@.len() - 1] == inst);
                            assert(entity_in(new_active@, i));
                        }
                    }
                }
                assert forall|m: int| 0 <= m < new_active@.len() implies exists|m2: int|
                    0 <= m2 < ki + 1 && (#[trigger] new_active@[m]) == pre.active@[m2] by {
                    if m < prev_active.len() {
                        assert(new_active@[m] == prev_active[m]);
                        let m2 = choose|m2: int| 0 <= m2 < ki && prev_active[m] == pre.active@[m2];
                        assert(new_active@[m] == pre.active@[m2]);
                    } else {
                        assert(new_active@[m] == pre.active@[ki]);
                    }
                }
                assert forall|m1: int, m2: int|
                    0 <= m1 < m2 < new_active@.len() implies (
                #[trigger] new_active@[m1]).entity.idx() != (
                #[trigger] new_active@[m2]).entity.idx() by {
                    if m2 == new_active@.len() - 1 && new_active@.len() > prev_active.len() {
                        let mm = choose|mm: int|
                            0 <= mm < ki && (#[trigger] new_active@[m1]) == pre.active@[mm];
                        assert(pre.active@[mm].entity.idx() != inst.entity.idx());
                    }
                }
            }
            k = k + 1;
        }
        core::mem::swap(&mut self.active, &mut new_active);
        proof {
            assert(pre.active@.subrange(0, pre.active@.len() as int) =~= pre.active@);
            assert forall|m: int|
                0 <= m < self.active@.len() implies (#[trigger] self.active@[m]).anim
                < self.descs@.len() by {
                let m2 = choose|m2: int|
                    0 <= m2 < pre.active@.len() && self.active@[m] == pre.active@[m2];
            }
            assert forall|i: int| !pre.animating(i) implies !(#[trigger] self.animating(i)) && (
            self.base@.dom().contains(i) <==> pre.base@.dom().contains(i)) && (
            pre.base@.dom().contains(i) ==> self.base@[i] == pre.base@[i]) && (
            self.current@.dom().contains(i) <==> pre.current@.dom().contains(i)) && (
            pre.current@.dom().contains(i) ==> self.current@[i] == pre.current@[i]) by {
                assert(!entity_in(pre.active@, i)) by {
                    if entity_in(pre.active@, i) {
                        let m = choose|m: int|
                            0 <= m < pre.active@.len() && (#[trigger] pre.active@[m]).entity.idx()
                                == i;
                        assert(pre.animating(i));
                    }
                }
                assert(!entity_in(pre.active@.subrange(0, pre.active@.len() as int), i));
                if self.animating(i) {
                    let m = choose|m: int|
                        0 <= m < self.active@.len() && (#[trigger] self.active@[m]).entity.idx()
                            == i;
                    assert(entity_in(self.active@, i));
                }
            }
            assert forall|k2: int| 0 <= k2 < pre.active@.len() implies inst_resolved(
                pre,
                self.base@,
                self.current@,
                self.active@,
                #[trigger] pre.active@[k2],
                now,
            ) by {}
        }
        self.active.len() > 0
    }
}

/// Whether any instance in `s` runs on entity index `i`.
pub open spec fn entity_in(s: Seq<AnimationInstance>, i: int) -> bool {
    exists|m: int| 0 <= m < s.len() && (#[trigger] s[m]).entity.idx() == i
}

/// Animation idempotence: running an animation to completion (now at least
/// its duration past its start) ends the instance; a non-persistent one
/// leaves the property at its exact pre-animation base value, a persistent
/// one leaves it at the final keyframe value.
pub proof fn lemma_animation_idempotence<T: Lerp>(
    s1: AnimatableStorage<T>,
    s2: AnimatableStorage<T>,
    k: int,
    now: u64,
)
    requires
        s1.wf(),
        0 <= k < s1.active@.len(),
        AnimatableStorage::<T>::animate_rel(s1, s2, now),
        now >= s1.active@[k].start_ms + s1.descs@[s1.active@[k].anim as int].duration_ms,
        s1.base@.dom().contains(s1.active@[k].entity.idx()),
    ensures
        !s2.animating(s1.active@[k].entity.idx()),
        !s1.descs@[s1.active@[k].anim as int].persistent ==> s2.value_of(
            s1.active@[k].entity.idx(),
        ) == s1.base@[s1.active@[k].entity.idx()],
        s1.descs@[s1.active@[k].anim as int].persistent ==> s2.value_of(
            s1.active@[k].entity.idx(),
        ) == s1.descs@[s1.active@[k].anim as int].last_value(),
{
    let inst = s1.active@[k];
    let desc = s1.descs@[inst.anim as int];
    let i = inst.entity.idx();
    assert(AnimatableStorage::<T>::frac_at(desc, inst.start_ms, now) >= FRAC_ONE);
    assert(inst_resolved(s1, s2.base@, s2.current@, s2.active@, inst, now));
    assert(!s2.animating(i)) by {
        if s2.animating(i) {
            let m = choose|m: int|
                0 <= m < s2.active@.len() && (#[trigger] s2.active@[m]).entity.idx() == i;
            assert(entity_in(s2.active@, i));
        }
    }
}

/// The state `(base, current, acts)` reflects the resolution of `inst` (an
/// instance of `pre`) at time `now`.
pub open spec fn inst_resolved<T: Lerp>(
    pre: AnimatableStorage<T>,
    base: Map<int, T>,
    current: Map<int, T>,
    acts: Seq<AnimationInstance>,
    inst: AnimationInstance,
    now: u64,
) -> bool {
    let desc = pre.descs@[inst.anim as int];
    let frac = AnimatableStorage::<T>::frac_at(desc, inst.start_ms, now);
    let i = inst.entity.idx();
    if frac >= FRAC_ONE {
        &&& !entity_in(acts, i)
        &&& !current.dom().contains(i)
        &&& (desc.persistent ==> base.dom().contains(i) && base[i] == desc.last_value())
        &&& (!desc.persistent ==> (base.dom().contains(i) <==> pre.base@.dom().contains(i)) && (
        pre.base@.dom().contains(i) ==> base[i] == pre.base@[i]))
    } else {
        &&& entity_in(acts, i)
        &&& current.dom().contains(i)
        &&& current[i] == sample(desc.keyframes@, frac)
        &&& (base.dom().contains(i) <==> pre.base@.dom().contains(i))
        &&& (pre.base@.dom().contains(i) ==> base[i] == pre.base@[i])
    }
}

/// The clamped elapsed fraction of `desc` at `now`, in thousandths.
pub fn compute_frac<T: Lerp>(desc: &AnimationDesc<T>, start_ms: u64, now: u64) -> (r: u64)
    requires
        desc.wf(),
    ensures
        r == AnimatableStorage::<T>::frac_at(*desc, start_ms, now),
        r <= FRAC_ONE,
{
    if now <= start_ms {
        0
    } else if now - start_ms >= desc.duration_ms {
        FRAC_ONE
    } else {
        let elapsed = now - start_ms;
        proof {
            assert(elapsed * (FRAC_ONE as int) / (desc.duration_ms as int) < FRAC_ONE)
                by (nonlinear_arith)
                requires
                    0 < elapsed < desc.duration_ms,
            ;
            assert(elapsed as u128 * FRAC_ONE as u128 <= u64::MAX as u128 * 1000);
        }
        (elapsed as u128 * FRAC_ONE as u128 / desc.duration_ms as u128) as u64
    }
}

/// Samples the keyframe track at `frac` thousandths.
pub fn sample_exec<T: Lerp>(kfs: &Vec<Keyframe<T>>, frac: u64) -> (r: T)
    requires
        kfs@.len() >= 1,
        frac <= FRAC_ONE,
        forall|k1: int, k2: int|
            0 <= k1 < k2 < kfs@.len() ==> (#[trigger] kfs@[k1]).time < (#[trigger] kfs@[k2]).time,
        forall|k: int| 0 <= k < kfs@.len() ==> (#[trigger] kfs@[k]).time <= FRAC_ONE,
    ensures
        r == sample(kfs@, frac as int),
    decreases kfs@.len(),
{
    if kfs.len() == 1 || frac <= kfs[0].time {
        kfs[0].value
    } else if frac <= kfs[1].time {
        T::lerp(kfs[0].value, kfs[1].value, frac - kfs[0].time, kfs[1].time - kfs[0].time)
    } else {
        let mut rest: Vec<Keyframe<T>> = Vec::new();
        let mut k: usize = 1;
        while k < kfs.len()
            invariant
                1 <= k <= kfs@.len(),
                rest@ =~= kfs@.subrange(1, k as int),
            decreases kfs@.len() - k,
        {
            rest.push(kfs[k]);
            k = k + 1;
        }
        proof {
            assert(rest@ =~= kfs@.skip(1));
        }
        let r = sample_exec(&rest, frac);
        r
    }
}

} // verus!
