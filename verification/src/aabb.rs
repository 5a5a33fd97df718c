use vstd::prelude::*;

use crate::fx::{abs_i, FX_ONE};
use crate::vec3::Vec3;

verus! {

/// An axis-aligned box in fixed-point world space.
#[derive(Clone, Copy, PartialEq, Eq, Structural, Debug)]
pub struct Aabb {
    pub min_x: i64,
    pub min_y: i64,
    pub min_z: i64,
    pub max_x: i64,
    pub max_y: i64,
    pub max_z: i64,
}

impl Aabb {
    /// The lower face coordinate on axis `i` (0 = x, 1 = y, 2 = z).
    pub open spec fn lo(self, i: int) -> int {
        if i == 0 {
            self.min_x as int
        } else if i == 1 {
            self.min_y as int
        } else {
            self.min_z as int
        }
    }

    /// The upper face coordinate on axis `i`.
    pub open spec fn hi(self, i: int) -> int {
        if i == 0 {
            self.max_x as int
        } else if i == 1 {
            self.max_y as int
        } else {
            self.max_z as int
        }
    }

    /// Each lower face lies at or below the matching upper face.
    pub open spec fn wf(self) -> bool {
        self.min_x <= self.max_x && self.min_y <= self.max_y && self.min_z <= self.max_z
    }

    /// Every face coordinate has magnitude at most `bound`.
    pub open spec fn within(self, bound: int) -> bool {
        abs_i(self.min_x as int) <= bound && abs_i(self.min_y as int) <= bound && abs_i(
            self.min_z as int,
        ) <= bound && abs_i(self.max_x as int) <= bound && abs_i(self.max_y as int) <= bound
            && abs_i(self.max_z as int) <= bound
    }

    /// Each side is at most `bound` long.
    pub open spec fn dims_at_most(self, bound: int) -> bool {
        self.max_x - self.min_x <= bound && self.max_y - self.min_y <= bound && self.max_z
            - self.min_z <= bound
    }

    /// Whether the open interior of the box meets the unit cell of the voxel
    /// at `(vx, vy, vz)`. Boxes that merely touch a cell face do not overlap it.
    pub open spec fn overlaps_voxel(self, vx: int, vy: int, vz: int) -> bool {
        self.hi(0) > vx * FX_ONE && self.lo(0) < vx * FX_ONE + FX_ONE && self.hi(1) > vy * FX_ONE
            && self.lo(1) < vy * FX_ONE + FX_ONE && self.hi(2) > vz * FX_ONE && self.lo(2) < vz
            * FX_ONE + FX_ONE
    }

    pub fn new(min_x: i64, min_y: i64, min_z: i64, max_x: i64, max_y: i64, max_z: i64) -> (r: Aabb)
        ensures
            r == (Aabb { min_x, min_y, min_z, max_x, max_y, max_z }),
    {
        Aabb { min_x, min_y, min_z, max_x, max_y, max_z }
    }

    pub fn get_lo(&self, i: usize) -> (r: i64)
        requires
            i < 3,
        ensures
            r == self.lo(i as int),
    {
        if i == 0 {
            self.min_x
        } else if i == 1 {
            self.min_y
        } else {
            self.min_z
        }
    }

    pub fn get_hi(&self, i: usize) -> (r: i64)
        requires
            i < 3,
        ensures
            r == self.hi(i as int),
    {
        if i == 0 {
            self.max_x
        } else if i == 1 {
            self.max_y
        } else {
            self.max_z
        }
    }

    /// The side length on axis `i`.
    pub fn extent(&self, i: usize) -> (r: i64)
        requires
            i < 3,
            self.wf(),
            self.within(0x2000_0000_0000_0000),
        ensures
            r == self.hi(i as int) - self.lo(i as int),
    {
        self.get_hi(i) - self.get_lo(i)
    }

    pub fn width(&self) -> (r: i64)
        requires
            self.wf(),
            self.within(0x2000_0000_0000_0000),
        ensures
            r == self.hi(0) - self.lo(0),
    {
        self.extent(0)
    }

    pub fn height(&self) -> (r: i64)
        requires
            self.wf(),
            self.within(0x2000_0000_0000_0000),
        ensures
            r == self.hi(1) - self.lo(1),
    {
        self.extent(1)
    }

    pub fn depth(&self) -> (r: i64)
        requires
            self.wf(),
            self.within(0x2000_0000_0000_0000),
        ensures
            r == self.hi(2) - self.lo(2),
    {
        self.extent(2)
    }

    /// Slide the whole box by `s` along axis `i`; the other axes and the
    /// box's size are untouched.
    pub fn shift_axis(&mut self, i: usize, s: i64)
        requires
            i < 3,
            old(self).within(0x2000_0000_0000_0000),
            abs_i(s as int) <= 0x2000_0000_0000_0000,
        ensures
            final(self).lo(i as int) == old(self).lo(i as int) + s,
            final(self).hi(i as int) == old(self).hi(i as int) + s,
            forall|j: int|
                0 <= j < 3 && j != i as int ==> final(self).lo(j) == old(self).lo(j)
                    && final(self).hi(j) == old(self).hi(j),
    {
        if i == 0 {
            self.min_x = self.min_x + s;
            self.max_x = self.max_x + s;
        } else if i == 1 {
            self.min_y = self.min_y + s;
            self.max_y = self.max_y + s;
        } else {
            self.min_z = self.min_z + s;
            self.max_z = self.max_z + s;
        }
    }

    /// Slide the whole box by the displacement `d`.
    pub fn translate(&mut self, d: &Vec3)
        requires
            old(self).within(0x2000_0000_0000_0000),
            d.all_abs_at_most(0x2000_0000_0000_0000),
        ensures
            forall|i: int|
                0 <= i < 3 ==> final(self).lo(i) == old(self).lo(i) + d.axis(i) && final(self).hi(i)
                    == old(self).hi(i) + d.axis(i),
    {
        self.min_x = self.min_x + d.x;
        self.max_x = self.max_x + d.x;
        self.min_y = self.min_y + d.y;
        self.max_y = self.max_y + d.y;
        self.min_z = self.min_z + d.z;
        self.max_z = self.max_z + d.z;
    }
}

} // verus!
