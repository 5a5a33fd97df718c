use vstd::prelude::*;

use crate::aabb::Aabb;
use crate::fx::abs_i;
use crate::vec3::{Vec3, Vec3i};

verus! {

/// How many frames a body reactivated by motion stays exempt from the sleep
/// check.
pub const SLEEP_FRAMES: i64 = 10;

/// The largest coordinate magnitude a well-formed body's box may sit at.
pub const POS_LIMIT: i64 = 1_000_000_000_000;

/// The largest side length of a well-formed body's box.
pub const DIM_LIMIT: i64 = 100_000;

/// The largest velocity, force or impulse component of a well-formed body.
pub const VEL_LIMIT: i64 = 1_000_000_000;

/// The largest mass of a well-formed body.
pub const MASS_LIMIT: i64 = 100_000;

/// The largest friction, drag or gravity-multiplier magnitude of a
/// well-formed body.
pub const RATE_LIMIT: i64 = 10_000;

/// A rigid body moved by the voxel integrator. All physical quantities are
/// fixed-point (thousandths of a unit); a non-positive mass marks the body
/// static. A drag of `None` defers to the world's default.
#[derive(Clone, Copy, PartialEq, Eq, Structural, Debug)]
pub struct RigidBody {
    pub aabb: Aabb,
    pub mass: i64,
    pub velocity: Vec3,
    pub forces: Vec3,
    pub impulses: Vec3,
    pub resting: Vec3i,
    pub in_fluid: bool,
    pub ratio_in_fluid: i64,
    pub friction: i64,
    pub restitution: i64,
    pub gravity_multiplier: i64,
    pub air_drag: Option<i64>,
    pub fluid_drag: Option<i64>,
    pub auto_step: bool,
    pub stepped: bool,
    pub collision: Option<Vec3>,
    pub sleep_frame_count: i64,
}

impl RigidBody {
    /// The bounds every field of a body respects before a tick; they keep the
    /// integrator's fixed-point arithmetic inside `i64`.
    pub open spec fn wf(self) -> bool {
        &&& self.aabb.wf()
        &&& self.aabb.within(POS_LIMIT as int)
        &&& self.aabb.dims_at_most(DIM_LIMIT as int)
        &&& self.aabb.max_x - self.aabb.min_x >= 1
        &&& self.aabb.max_y - self.aabb.min_y >= 1
        &&& self.aabb.max_z - self.aabb.min_z >= 1
        &&& abs_i(self.mass as int) <= MASS_LIMIT
        &&& self.velocity.all_abs_at_most(VEL_LIMIT as int)
        &&& self.forces.all_abs_at_most(VEL_LIMIT as int)
        &&& self.impulses.all_abs_at_most(VEL_LIMIT as int)
        &&& (self.resting.x == 0 || self.resting.x == 1 || self.resting.x == -1)
        &&& (self.resting.y == 0 || self.resting.y == 1 || self.resting.y == -1)
        &&& (self.resting.z == 0 || self.resting.z == 1 || self.resting.z == -1)
        &&& 0 <= self.ratio_in_fluid <= crate::fx::FX_ONE
        &&& 0 <= self.friction <= RATE_LIMIT
        &&& 0 <= self.restitution <= crate::fx::FX_ONE
        &&& abs_i(self.gravity_multiplier as int) <= RATE_LIMIT
        &&& (self.air_drag matches Some(d) ==> 0 <= d <= RATE_LIMIT)
        &&& (self.fluid_drag matches Some(d) ==> 0 <= d <= RATE_LIMIT)
        &&& abs_i(self.sleep_frame_count as int) <= 1_000_000
    }

    /// A dynamic unit-default body filling the given box: mass one, gravity
    /// fully applied, no friction or restitution, world-default drags.
    pub fn new(aabb: Aabb) -> (r: RigidBody)
        requires
            aabb.wf(),
            aabb.within(POS_LIMIT as int),
            aabb.dims_at_most(DIM_LIMIT as int),
            aabb.max_x - aabb.min_x >= 1,
            aabb.max_y - aabb.min_y >= 1,
            aabb.max_z - aabb.min_z >= 1,
        ensures
            r.wf(),
            r.aabb == aabb,
            r.mass == crate::fx::FX_ONE,
            r.velocity == (Vec3 { x: 0, y: 0, z: 0 }),
            r.forces == (Vec3 { x: 0, y: 0, z: 0 }),
            r.impulses == (Vec3 { x: 0, y: 0, z: 0 }),
            r.resting == (Vec3i { x: 0, y: 0, z: 0 }),
            !r.in_fluid && r.ratio_in_fluid == 0,
            r.friction == 0 && r.restitution == 0,
            r.gravity_multiplier == crate::fx::FX_ONE,
            r.air_drag is None && r.fluid_drag is None,
            !r.auto_step && !r.stepped,
            r.collision is None,
            r.sleep_frame_count == SLEEP_FRAMES,
    {
        RigidBody {
            aabb,
            mass: crate::fx::FX_ONE,
            velocity: Vec3::zero(),
            forces: Vec3::zero(),
            impulses: Vec3::zero(),
            resting: Vec3i::zero(),
            in_fluid: false,
            ratio_in_fluid: 0,
            friction: 0,
            restitution: 0,
            gravity_multiplier: crate::fx::FX_ONE,
            air_drag: None,
            fluid_drag: None,
            auto_step: false,
            stepped: false,
            collision: None,
            sleep_frame_count: SLEEP_FRAMES,
        }
    }

    /// Accumulate an external force for the coming tick and wake the body.
    pub fn apply_force(&mut self, fx: i64, fy: i64, fz: i64)
        requires
            abs_i(old(self).forces.x + fx) <= i64::MAX,
            abs_i(old(self).forces.y + fy) <= i64::MAX,
            abs_i(old(self).forces.z + fz) <= i64::MAX,
        ensures
            final(self).forces.x == old(self).forces.x + fx,
            final(self).forces.y == old(self).forces.y + fy,
            final(self).forces.z == old(self).forces.z + fz,
            final(self).sleep_frame_count == SLEEP_FRAMES,
            *final(self) == (RigidBody {
                forces: final(self).forces,
                sleep_frame_count: SLEEP_FRAMES,
                ..*old(self)
            }),
    {
        self.forces.x = self.forces.x + fx;
        self.forces.y = self.forces.y + fy;
        self.forces.z = self.forces.z + fz;
        self.mark_active();
    }

    /// Accumulate an external impulse for the coming tick and wake the body.
    pub fn apply_impulse(&mut self, ix: i64, iy: i64, iz: i64)
        requires
            abs_i(old(self).impulses.x + ix) <= i64::MAX,
            abs_i(old(self).impulses.y + iy) <= i64::MAX,
            abs_i(old(self).impulses.z + iz) <= i64::MAX,
        ensures
            final(self).impulses.x == old(self).impulses.x + ix,
            final(self).impulses.y == old(self).impulses.y + iy,
            final(self).impulses.z == old(self).impulses.z + iz,
            final(self).sleep_frame_count == SLEEP_FRAMES,
            *final(self) == (RigidBody {
                impulses: final(self).impulses,
                sleep_frame_count: SLEEP_FRAMES,
                ..*old(self)
            }),
    {
        self.impulses.x = self.impulses.x + ix;
        self.impulses.y = self.impulses.y + iy;
        self.impulses.z = self.impulses.z + iz;
        self.mark_active();
    }

    /// Exempt the body from the sleep check for the next few frames.
    pub fn mark_active(&mut self)
        ensures
            *final(self) == (RigidBody { sleep_frame_count: SLEEP_FRAMES, ..*old(self) }),
    {
        self.sleep_frame_count = SLEEP_FRAMES;
    }

    /// The body's position: the minimum corner of its box.
    pub fn get_position(&self) -> (r: Vec3)
        ensures
            r.x == self.aabb.min_x && r.y == self.aabb.min_y && r.z == self.aabb.min_z,
    {
        Vec3 { x: self.aabb.min_x, y: self.aabb.min_y, z: self.aabb.min_z }
    }

    /// Move the body so its minimum corner sits at the given point; the box
    /// keeps its size.
    pub fn set_position(&mut self, x: i64, y: i64, z: i64)
        requires
            old(self).aabb.wf(),
            old(self).aabb.within(POS_LIMIT as int),
            old(self).aabb.dims_at_most(DIM_LIMIT as int),
            abs_i(x as int) <= POS_LIMIT,
            abs_i(y as int) <= POS_LIMIT,
            abs_i(z as int) <= POS_LIMIT,
        ensures
            final(self).aabb.min_x == x && final(self).aabb.min_y == y && final(self).aabb.min_z
                == z,
            final(self).aabb.hi(0) - final(self).aabb.lo(0) == old(self).aabb.hi(0) - old(
                self,
            ).aabb.lo(0),
            final(self).aabb.hi(1) - final(self).aabb.lo(1) == old(self).aabb.hi(1) - old(
                self,
            ).aabb.lo(1),
            final(self).aabb.hi(2) - final(self).aabb.lo(2) == old(self).aabb.hi(2) - old(
                self,
            ).aabb.lo(2),
            *final(self) == (RigidBody { aabb: final(self).aabb, ..*old(self) }),
    {
        let w: i64 = self.aabb.max_x - self.aabb.min_x;
        let h: i64 = self.aabb.max_y - self.aabb.min_y;
        let d: i64 = self.aabb.max_z - self.aabb.min_z;
        self.aabb = Aabb {
            min_x: x,
            min_y: y,
            min_z: z,
            max_x: x + w,
            max_y: y + h,
            max_z: z + d,
        };
    }
}

} // verus!
