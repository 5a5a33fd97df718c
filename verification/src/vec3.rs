use vstd::prelude::*;

use crate::fx::abs_i;

verus! {

/// A triple of fixed-point world-space coordinates.
#[derive(Clone, Copy, PartialEq, Eq, Structural, Debug)]
pub struct Vec3 {
    pub x: i64,
    pub y: i64,
    pub z: i64,
}

/// A triple of small per-axis flags (contact directions and the like).
#[derive(Clone, Copy, PartialEq, Eq, Structural, Debug)]
pub struct Vec3i {
    pub x: i32,
    pub y: i32,
    pub z: i32,
}

impl Vec3 {
    /// The component on axis `i` (0 = x, 1 = y, 2 = z).
    pub open spec fn axis(self, i: int) -> int {
        if i == 0 {
            self.x as int
        } else if i == 1 {
            self.y as int
        } else {
            self.z as int
        }
    }

    /// The squared magnitude, in squared raw steps.
    pub open spec fn mag_sq(self) -> int {
        (self.x as int) * (self.x as int) + (self.y as int) * (self.y as int) + (self.z as int)
            * (self.z as int)
    }

    pub open spec fn all_abs_at_most(self, bound: int) -> bool {
        abs_i(self.x as int) <= bound && abs_i(self.y as int) <= bound && abs_i(self.z as int)
            <= bound
    }

    pub fn new(x: i64, y: i64, z: i64) -> (r: Vec3)
        ensures
            r.x == x && r.y == y && r.z == z,
    {
        Vec3 { x, y, z }
    }

    pub fn zero() -> (r: Vec3)
        ensures
            r.x == 0 && r.y == 0 && r.z == 0,
    {
        Vec3 { x: 0, y: 0, z: 0 }
    }

    pub fn get(&self, i: usize) -> (r: i64)
        requires
            i < 3,
        ensures
            r == self.axis(i as int),
    {
        if i == 0 {
            self.x
        } else if i == 1 {
            self.y
        } else {
            self.z
        }
    }

    pub fn set_axis(&mut self, i: usize, v: i64)
        requires
            i < 3,
        ensures
            final(self).axis(i as int) == v,
            forall|j: int| 0 <= j < 3 && j != i as int ==> final(self).axis(j) == old(self).axis(j),
    {
        if i == 0 {
            self.x = v;
        } else if i == 1 {
            self.y = v;
        } else {
            self.z = v;
        }
    }

    /// The squared magnitude, computed without loss in a 128-bit value.
    pub fn mag_sq_raw(&self) -> (r: i128)
        requires
            self.all_abs_at_most(0x4000_0000_0000_0000),
        ensures
            r == self.mag_sq(),
    {
        proof {
            crate::fx::lemma_mul_mag_bound(
                self.x as int,
                self.x as int,
                0x4000_0000_0000_0000,
                0x4000_0000_0000_0000,
            );
            crate::fx::lemma_mul_mag_bound(
                self.y as int,
                self.y as int,
                0x4000_0000_0000_0000,
                0x4000_0000_0000_0000,
            );
            crate::fx::lemma_mul_mag_bound(
                self.z as int,
                self.z as int,
                0x4000_0000_0000_0000,
                0x4000_0000_0000_0000,
            );
            assert((self.x as int) * (self.x as int) >= 0) by (nonlinear_arith);
            assert((self.y as int) * (self.y as int) >= 0) by (nonlinear_arith);
            assert((self.z as int) * (self.z as int) >= 0) by (nonlinear_arith);
        }
        let xx: i128 = (self.x as i128) * (self.x as i128);
        let yy: i128 = (self.y as i128) * (self.y as i128);
        let zz: i128 = (self.z as i128) * (self.z as i128);
        xx + yy + zz
    }
}

impl Vec3i {
    /// The flag on axis `i` (0 = x, 1 = y, 2 = z).
    pub open spec fn axis(self, i: int) -> int {
        if i == 0 {
            self.x as int
        } else if i == 1 {
            self.y as int
        } else {
            self.z as int
        }
    }

    pub fn zero() -> (r: Vec3i)
        ensures
            r.x == 0 && r.y == 0 && r.z == 0,
    {
        Vec3i { x: 0, y: 0, z: 0 }
    }

    pub fn get(&self, i: usize) -> (r: i32)
        requires
            i < 3,
        ensures
            r == self.axis(i as int),
    {
        if i == 0 {
            self.x
        } else if i == 1 {
            self.y
        } else {
            self.z
        }
    }

    pub fn set_axis(&mut self, i: usize, v: i32)
        requires
            i < 3,
        ensures
            final(self).axis(i as int) == v,
            forall|j: int| 0 <= j < 3 && j != i as int ==> final(self).axis(j) == old(self).axis(j),
    {
        if i == 0 {
            self.x = v;
        } else if i == 1 {
            self.y = v;
        } else {
            self.z = v;
        }
    }
}

} // verus!
