//! Computed per-entity geometry, produced by the layout pass.

use vstd::prelude::*;

use crate::entity::Entity;
use crate::storage::Storage;
use crate::style::Visibility;

verus! {

/// An axis-aligned rectangle in window coordinates.
#[derive(Clone, Copy, PartialEq, Eq, Structural, Debug)]
pub struct BoundingBox {
    pub x: i64,
    pub y: i64,
    pub w: i64,
    pub h: i64,
}

impl BoundingBox {
    pub fn zero() -> (r: BoundingBox)
        ensures
            r == (BoundingBox { x: 0, y: 0, w: 0, h: 0 }),
    {
        BoundingBox { x: 0, y: 0, w: 0, h: 0 }
    }

    /// Whether the point lies inside (edges included on the near sides).
    pub open spec fn contains_spec(self, px: int, py: int) -> bool {
        self.x <= px < self.x + self.w && self.y <= py < self.y + self.h
    }

    pub fn contains(&self, px: i64, py: i64) -> (r: bool)
        requires
            0 <= self.w,
            0 <= self.h,
            self.x + self.w <= i64::MAX,
            self.y + self.h <= i64::MAX,
        ensures
            r == self.contains_spec(px as int, py as int),
    {
        self.x <= px && px < self.x + self.w && self.y <= py && py < self.y + self.h
    }

    /// The intersection of two rectangles (empty results have size zero).
    pub open spec fn intersect_spec(a: BoundingBox, b: BoundingBox) -> BoundingBox {
        let x = if a.x >= b.x {
            a.x
        } else {
            b.x
        };
        let y = if a.y >= b.y {
            a.y
        } else {
            b.y
        };
        let r = if a.x + a.w <= b.x + b.w {
            a.x + a.w
        } else {
            b.x + b.w
        };
        let btm = if a.y + a.h <= b.y + b.h {
            a.y + a.h
        } else {
            b.y + b.h
        };
        BoundingBox {
            x: x as i64,
            y: y as i64,
            w: if r - x >= 0 {
                (r - x) as i64
            } else {
                0
            },
            h: if btm - y >= 0 {
                (btm - y) as i64
            } else {
                0
            },
        }
    }

    pub fn intersect(a: BoundingBox, b: BoundingBox) -> (r: BoundingBox)
        requires
            -0x2000_0000_0000 <= a.x <= 0x2000_0000_0000,
            -0x2000_0000_0000 <= a.y <= 0x2000_0000_0000,
            0 <= a.w <= 0x2000_0000_0000,
            0 <= a.h <= 0x2000_0000_0000,
            -0x2000_0000_0000 <= b.x <= 0x2000_0000_0000,
            -0x2000_0000_0000 <= b.y <= 0x2000_0000_0000,
            0 <= b.w <= 0x2000_0000_0000,
            0 <= b.h <= 0x2000_0000_0000,
        ensures
            r == BoundingBox::intersect_spec(a, b),
    {
        let x = if a.x >= b.x {
            a.x
        } else {
            b.x
        };
        let y = if a.y >= b.y {
            a.y
        } else {
            b.y
        };
        let right = if a.x + a.w <= b.x + b.w {
            a.x + a.w
        } else {
            b.x + b.w
        };
        let bottom = if a.y + a.h <= b.y + b.h {
            a.y + a.h
        } else {
            b.y + b.h
        };
        BoundingBox {
            x,
            y,
            w: if right - x >= 0 {
                right - x
            } else {
                0
            },
            h: if bottom - y >= 0 {
                bottom - y
            } else {
                0
            },
        }
    }
}

/// The resolved geometry and interaction flags of every entity. Only the
/// layout pass writes geometry, except for the root, which the shell seeds
/// from the window size.
pub struct Data {
    pub posx: Storage<i64>,
    pub posy: Storage<i64>,
    pub width: Storage<i64>,
    pub height: Storage<i64>,
    pub visibility: Storage<Visibility>,
    pub opacity: Storage<i64>,
    pub clip_region: Storage<BoundingBox>,
    pub hoverability: Storage<bool>,
    pub focusability: Storage<bool>,
}

impl Data {
    pub open spec fn wf(self) -> bool {
        &&& self.posx.wf()
        &&& self.posy.wf()
        &&& self.width.wf()
        &&& self.height.wf()
        &&& self.visibility.wf()
        &&& self.opacity.wf()
        &&& self.clip_region.wf()
        &&& self.hoverability.wf()
        &&& self.focusability.wf()
    }

    pub fn new() -> (r: Data)
        ensures
            r.wf(),
            r.posx@ == Map::<int, i64>::empty(),
            r.posy@ == Map::<int, i64>::empty(),
            r.width@ == Map::<int, i64>::empty(),
            r.height@ == Map::<int, i64>::empty(),
            r.visibility@ == Map::<int, Visibility>::empty(),
            r.opacity@ == Map::<int, i64>::empty(),
            r.clip_region@ == Map::<int, BoundingBox>::empty(),
            r.hoverability@ == Map::<int, bool>::empty(),
            r.focusability@ == Map::<int, bool>::empty(),
    {
        Data {
            posx: Storage::new(),
            posy: Storage::new(),
            width: Storage::new(),
            height: Storage::new(),
            visibility: Storage::new(),
            opacity: Storage::new(),
            clip_region: Storage::new(),
            hoverability: Storage::new(),
            focusability: Storage::new(),
        }
    }

    /// Seeds the flags a fresh entity starts with: visible, hoverable,
    /// focusable, fully opaque.
    pub fn add(&mut self, e: Entity)
        requires
            old(self).wf(),
        ensures
            final(self).wf(),
            final(self).visibility@ == old(self).visibility@.insert(e.idx(), Visibility::Visible),
            final(self).opacity@ == old(self).opacity@.insert(e.idx(), 100int as i64),
            final(self).hoverability@ == old(self).hoverability@.insert(e.idx(), true),
            final(self).focusability@ == old(self).focusability@.insert(e.idx(), true),
            final(self).posx@ == old(self).posx@,
            final(self).posy@ == old(self).posy@,
            final(self).width@ == old(self).width@,
            final(self).height@ == old(self).height@,
            final(self).clip_region@ == old(self).clip_region@,
    {
        self.visibility.insert(e, Visibility::Visible);
        self.opacity.insert(e, 100);
        self.hoverability.insert(e, true);
        self.focusability.insert(e, true);
    }

    /// No computed value is held for entity index `i`.
    pub open spec fn absent(self, i: int) -> bool {
        &&& !self.posx@.dom().contains(i)
        &&& !self.posy@.dom().contains(i)
        &&& !self.width@.dom().contains(i)
        &&& !self.height@.dom().contains(i)
        &&& !self.visibility@.dom().contains(i)
        &&& !self.opacity@.dom().contains(i)
        &&& !self.clip_region@.dom().contains(i)
        &&& !self.hoverability@.dom().contains(i)
        &&& !self.focusability@.dom().contains(i)
    }

    /// Purges every computed value of `e`.
    pub fn remove(&mut self, e: Entity)
        requires
            old(self).wf(),
        ensures
            final(self).wf(),
            final(self).posx@ == old(self).posx@.remove(e.idx()),
            final(self).posy@ == old(self).posy@.remove(e.idx()),
            final(self).width@ == old(self).width@.remove(e.idx()),
            final(self).height@ == old(self).height@.remove(e.idx()),
            final(self).visibility@ == old(self).visibility@.remove(e.idx()),
            final(self).opacity@ == old(self).opacity@.remove(e.idx()),
            final(self).clip_region@ == old(self).clip_region@.remove(e.idx()),
            final(self).hoverability@ == old(self).hoverability@.remove(e.idx()),
            final(self).focusability@ == old(self).focusability@.remove(e.idx()),
    {
        self.posx.remove(e);
        self.posy.remove(e);
        self.width.remove(e);
        self.height.remove(e);
        self.visibility.remove(e);
        self.opacity.remove(e);
        self.clip_region.remove(e);
        self.hoverability.remove(e);
        self.focusability.remove(e);
    }

    pub fn get_posx(&self, e: Entity) -> (r: i64)
        requires
            self.wf(),
        ensures
            r == self.posx.spec_get_or(e.idx(), 0int as i64),
    {
        self.posx.get_or(e, 0)
    }

    pub fn get_posy(&self, e: Entity) -> (r: i64)
        requires
            self.wf(),
        ensures
            r == self.posy.spec_get_or(e.idx(), 0int as i64),
    {
        self.posy.get_or(e, 0)
    }

    pub fn get_width(&self, e: Entity) -> (r: i64)
        requires
            self.wf(),
        ensures
            r == self.width.spec_get_or(e.idx(), 0int as i64),
    {
        self.width.get_or(e, 0)
    }

    pub fn get_height(&self, e: Entity) -> (r: i64)
        requires
            self.wf(),
        ensures
            r == self.height.spec_get_or(e.idx(), 0int as i64),
    {
        self.height.get_or(e, 0)
    }

    /// The entity's bounds as one rectangle.
    pub fn get_bounds(&self, e: Entity) -> (r: BoundingBox)
        requires
            self.wf(),
        ensures
            r == (BoundingBox {
                x: self.posx.spec_get_or(e.idx(), 0int as i64),
                y: self.posy.spec_get_or(e.idx(), 0int as i64),
                w: self.width.spec_get_or(e.idx(), 0int as i64),
                h: self.height.spec_get_or(e.idx(), 0int as i64),
            }),
    {
        BoundingBox {
            x: self.posx.get_or(e, 0),
            y: self.posy.get_or(e, 0),
            w: self.width.get_or(e, 0),
            h: self.height.get_or(e, 0),
        }
    }

    pub fn get_visibility(&self, e: Entity) -> (r: Visibility)
        requires
            self.wf(),
        ensures
            r == self.visibility.spec_get_or(e.idx(), Visibility::Visible),
    {
        self.visibility.get_or(e, Visibility::Visible)
    }

    /// Opacity in percent (0 fully transparent, 100 opaque).
    pub fn get_opacity(&self, e: Entity) -> (r: i64)
        requires
            self.wf(),
        ensures
            r == self.opacity.spec_get_or(e.idx(), 100int as i64),
    {
        self.opacity.get_or(e, 100)
    }

    pub fn get_clip_region(&self, e: Entity) -> (r: BoundingBox)
        requires
            self.wf(),
        ensures
            r == self.clip_region.spec_get_or(
                e.idx(),
                BoundingBox { x: 0, y: 0, w: 0, h: 0 },
            ),
    {
        self.clip_region.get_or(e, BoundingBox::zero())
    }

    pub fn get_hoverability(&self, e: Entity) -> (r: bool)
        requires
            self.wf(),
        ensures
            r == self.hoverability.spec_get_or(e.idx(), false),
    {
        self.hoverability.get_or(e, false)
    }

    pub fn get_focusability(&self, e: Entity) -> (r: bool)
        requires
            self.wf(),
        ensures
            r == self.focusability.spec_get_or(e.idx(), false),
    {
        self.focusability.get_or(e, false)
    }

    pub fn set_posx(&mut self, e: Entity, v: i64)
        requires
            old(self).wf(),
        ensures
            final(self).wf(),
            final(self).posx@ == old(self).posx@.insert(e.idx(), v),
            final(self).posy@ == old(self).posy@,
            final(self).width@ == old(self).width@,
            final(self).height@ == old(self).height@,
            final(self).visibility@ == old(self).visibility@,
            final(self).opacity@ == old(self).opacity@,
            final(self).clip_region@ == old(self).clip_region@,
            final(self).hoverability@ == old(self).hoverability@,
            final(self).focusability@ == old(self).focusability@,
    {
        self.posx.insert(e, v);
    }

    pub fn set_posy(&mut self, e: Entity, v: i64)
        requires
            old(self).wf(),
        ensures
            final(self).wf(),
            final(self).posy@ == old(self).posy@.insert(e.idx(), v),
            final(self).posx@ == old(self).posx@,
            final(self).width@ == old(self).width@,
            final(self).height@ == old(self).height@,
            final(self).visibility@ == old(self).visibility@,
            final(self).opacity@ == old(self).opacity@,
            final(self).clip_region@ == old(self).clip_region@,
            final(self).hoverability@ == old(self).hoverability@,
            final(self).focusability@ == old(self).focusability@,
    {
        self.posy.insert(e, v);
    }

    pub fn set_width(&mut self, e: Entity, v: i64)
        requires
            old(self).wf(),
        ensures
            final(self).wf(),
            final(self).width@ == old(self).width@.insert(e.idx(), v),
            final(self).posx@ == old(self).posx@,
            final(self).posy@ == old(self).posy@,
            final(self).height@ == old(self).height@,
            final(self).visibility@ == old(self).visibility@,
            final(self).opacity@ == old(self).opacity@,
            final(self).clip_region@ == old(self).clip_region@,
            final(self).hoverability@ == old(self).hoverability@,
            final(self).focusability@ == old(self).focusability@,
    {
        self.width.insert(e, v);
    }

    pub fn set_height(&mut self, e: Entity, v: i64)
        requires
            old(self).wf(),
        ensures
            final(self).wf(),
            final(self).height@ == old(self).height@.insert(e.idx(), v),
            final(self).posx@ == old(self).posx@,
            final(self).posy@ == old(self).posy@,
            final(self).width@ == old(self).width@,
            final(self).visibility@ == old(self).visibility@,
            final(self).opacity@ == old(self).opacity@,
            final(self).clip_region@ == old(self).clip_region@,
            final(self).hoverability@ == old(self).hoverability@,
            final(self).focusability@ == old(self).focusability@,
    {
        self.height.insert(e, v);
    }

    pub fn set_visibility(&mut self, e: Entity, v: Visibility)
        requires
            old(self).wf(),
        ensures
            final(self).wf(),
            final(self).visibility@ == old(self).visibility@.insert(e.idx(), v),
    {
        self.visibility.insert(e, v);
    }

    pub fn set_opacity(&mut self, e: Entity, v: i64)
        requires
            old(self).wf(),
        ensures
            final(self).wf(),
            final(self).opacity@ == old(self).opacity@.insert(e.idx(), v),
    {
        self.opacity.insert(e, v);
    }

    pub fn set_clip_region(&mut self, e: Entity, v: BoundingBox)
        requires
            old(self).wf(),
        ensures
            final(self).wf(),
            final(self).clip_region@ == old(self).clip_region@.insert(e.idx(), v),
    {
        self.clip_region.insert(e, v);
    }

    pub fn set_hoverability(&mut self, e: Entity, v: bool)
        requires
            old(self).wf(),
        ensures
            final(self).wf(),
            final(self).hoverability@ == old(self).hoverability@.insert(e.idx(), v),
    {
        self.hoverability.insert(e, v);
    }

    pub fn set_focusability(&mut self, e: Entity, v: bool)
        requires
            old(self).wf(),
        ensures
            final(self).wf(),
            final(self).focusability@ == old(self).focusability@.insert(e.idx(), v),
    {
        self.focusability.insert(e, v);
    }
}

} // verus!
