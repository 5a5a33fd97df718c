use vstd::prelude::*;

use crate::aabb::Aabb;
use crate::config::WorldConfig;
use crate::fx::{abs_i, fx_div, fx_div_spec, fx_mul, fx_mul_spec, isqrt, sqrt_floor, vox_of, vox_floor, FX_ONE};
use crate::fx::{lemma_fx_div_bound, lemma_fx_mul_bound};
use crate::registry::Registry;
use crate::rigidbody::{RigidBody, SLEEP_FRAMES};
use crate::sweep::{box_has_solid, box_hits_solid, impact_surface, sweep_slide_xz, sweep_step};
use crate::sweep::{drive_inv, sweep_collide, SWEEP_LIMIT};
use crate::vec3::{Vec3, Vec3i};
use crate::voxels::VoxelAccess;

verus! {

/// The longest tick the integrator accepts, in fixed-point seconds (ten
/// seconds); keeps the integration arithmetic inside `i64`.
pub const DT_LIMIT: i64 = 10_000;

/// How many impacts a single sweep resolves before giving up, a safety bound
/// against degenerate geometry.
pub const MAX_SWEEP_ITERS: u32 = 10;

/// The voxel-terrain rigid-body integrator: semi-implicit Euler with
/// buoyancy, per-contact-axis friction, drag, swept-box collision resolution,
/// auto-stepping, contact impulses with restitution, and a sleep heuristic.
pub struct Physics;

/// Whether a world pulls on a body at all: the gravity vector is negligible
/// (squared magnitude under the fixed-point threshold) or the body ignores
/// gravity.
pub open spec fn no_gravity_spec(config: WorldConfig, body: RigidBody) -> bool {
    config.gravity.mag_sq() < 10 || body.gravity_multiplier == 0
}

/// How many consecutive fluid voxels stand in the column at `(cx, cz)` from
/// `y` up to and including `y1`.
pub open spec fn fluid_column_count<A: VoxelAccess>(
    space: &A,
    reg: Registry,
    cx: int,
    cz: int,
    y: int,
    y1: int,
) -> int
    decreases y1 - y + 1,
{
    if y > y1 {
        0
    } else if !reg.fluid_spec(space.voxel_at(cx, y, cz) as int) {
        0
    } else {
        1 + fluid_column_count(space, reg, cx, cz, y + 1, y1)
    }
}

/// Whether the voxel under the box's minimum corner is a fluid.
pub open spec fn in_fluid_spec<A: VoxelAccess>(space: &A, reg: Registry, aabb: Aabb) -> bool {
    reg.fluid_spec(
        space.voxel_at(vox_floor(aabb.lo(0)), vox_floor(aabb.lo(1)), vox_floor(aabb.lo(2))) as int,
    )
}

/// The height of the fluid surface over the box's column: the top of the
/// consecutive run of fluid voxels that starts at the box's bottom.
pub open spec fn fluid_level_spec<A: VoxelAccess>(space: &A, reg: Registry, aabb: Aabb) -> int {
    vox_floor(aabb.lo(1)) + 1 + fluid_column_count(
        space,
        reg,
        vox_floor(aabb.lo(0)),
        vox_floor(aabb.lo(2)),
        vox_floor(aabb.lo(1)) + 1,
        vox_floor(aabb.hi(1)),
    )
}

/// The fraction of the box's height below the fluid surface, clamped to one.
pub open spec fn fluid_ratio_spec<A: VoxelAccess>(space: &A, reg: Registry, aabb: Aabb) -> int {
    let h = fluid_level_spec(space, reg, aabb) * FX_ONE - aabb.lo(1);
    let r = fx_div_spec(h, aabb.hi(1) - aabb.lo(1));
    if r > FX_ONE {
        FX_ONE as int
    } else {
        r
    }
}

/// The buoyant force on one axis: gravity times the fluid density times the
/// displaced volume (box volume times the submerged fraction).
pub open spec fn buoyancy_spec<A: VoxelAccess>(
    space: &A,
    reg: Registry,
    cfg: WorldConfig,
    aabb: Aabb,
    i: int,
) -> int {
    if in_fluid_spec(space, reg, aabb) {
        let vol = fx_mul_spec(
            fx_mul_spec(aabb.hi(0) - aabb.lo(0), aabb.hi(1) - aabb.lo(1)),
            aabb.hi(2) - aabb.lo(2),
        );
        let displaced = fx_mul_spec(vol, fluid_ratio_spec(space, reg, aabb));
        let scalar = fx_mul_spec(cfg.fluid_density as int, displaced);
        fx_mul_spec(cfg.gravity.axis(i), scalar)
    } else {
        0
    }
}

/// The acceleration on one axis: accumulated (and buoyant) force over mass,
/// plus gravity scaled by the body's multiplier.
pub open spec fn accel_spec<A: VoxelAccess>(
    space: &A,
    reg: Registry,
    cfg: WorldConfig,
    b: RigidBody,
    i: int,
) -> int {
    fx_div_spec(b.forces.axis(i) + buoyancy_spec(space, reg, cfg, b.aabb, i), b.mass as int)
        + fx_mul_spec(cfg.gravity.axis(i), b.gravity_multiplier as int)
}

/// The velocity change on one axis over a tick: impulse over mass plus
/// acceleration times the tick length.
pub open spec fn dv_spec<A: VoxelAccess>(
    space: &A,
    reg: Registry,
    cfg: WorldConfig,
    b: RigidBody,
    dt: int,
    i: int,
) -> int {
    fx_div_spec(b.impulses.axis(i), b.mass as int) + fx_mul_spec(
        accel_spec(space, reg, cfg, b, i),
        dt,
    )
}

/// The integrated (pre-friction, pre-drag) velocity on one axis.
pub open spec fn vel1_spec<A: VoxelAccess>(
    space: &A,
    reg: Registry,
    cfg: WorldConfig,
    b: RigidBody,
    dt: int,
    i: int,
) -> int {
    b.velocity.axis(i) + dv_spec(space, reg, cfg, b, dt, i)
}

/// The drag coefficient in effect: the body's own (or the world's) air drag,
/// or in fluid the fluid drag scaled by how deeply the body sits in it.
pub open spec fn drag_spec<A: VoxelAccess>(
    space: &A,
    reg: Registry,
    cfg: WorldConfig,
    b: RigidBody,
) -> int {
    if in_fluid_spec(space, reg, b.aabb) {
        let base = match b.fluid_drag {
            Some(d) => d as int,
            None => cfg.fluid_drag as int,
        };
        let depth = FX_ONE - fx_mul_spec(
            FX_ONE - fluid_ratio_spec(space, reg, b.aabb),
            FX_ONE - fluid_ratio_spec(space, reg, b.aabb),
        );
        fx_mul_spec(base, depth)
    } else {
        match b.air_drag {
            Some(d) => d as int,
            None => cfg.air_drag as int,
        }
    }
}

/// The factor the velocity is scaled by for drag: `1 - drag * dt / mass`,
/// floored at zero.
pub open spec fn drag_mult_spec<A: VoxelAccess>(
    space: &A,
    reg: Registry,
    cfg: WorldConfig,
    b: RigidBody,
    dt: int,
) -> int {
    let m = FX_ONE - fx_div_spec(fx_mul_spec(drag_spec(space, reg, cfg, b), dt), b.mass as int);
    if m < 0 {
        0
    } else {
        m
    }
}

/// The tick's per-axis velocity change, as a vector.
pub open spec fn dv_vec3<A: VoxelAccess>(space: &A, reg: Registry, cfg: WorldConfig, b: RigidBody, dt: int) -> Vec3 {
    Vec3 {
        x: dv_spec(space, reg, cfg, b, dt, 0) as i64,
        y: dv_spec(space, reg, cfg, b, dt, 1) as i64,
        z: dv_spec(space, reg, cfg, b, dt, 2) as i64,
    }
}

/// The integrated (pre-friction, pre-drag) velocity, as a vector.
pub open spec fn vel1_vec3<A: VoxelAccess>(space: &A, reg: Registry, cfg: WorldConfig, b: RigidBody, dt: int) -> Vec3 {
    Vec3 {
        x: vel1_spec(space, reg, cfg, b, dt, 0) as i64,
        y: vel1_spec(space, reg, cfg, b, dt, 1) as i64,
        z: vel1_spec(space, reg, cfg, b, dt, 2) as i64,
    }
}

/// The velocity the body carries into collision resolution: integrated,
/// braked by friction on its gripping contact axes, and scaled by drag.
pub open spec fn pre_contact_vel<A: VoxelAccess>(
    space: &A,
    reg: Registry,
    cfg: WorldConfig,
    b: RigidBody,
    dt: int,
) -> Vec3 {
    let vb = vel_braked(
        vel1_vec3(space, reg, cfg, b, dt),
        b.resting,
        dv_vec3(space, reg, cfg, b, dt),
        b.friction as int,
    );
    let m = drag_mult_spec(space, reg, cfg, b, dt);
    Vec3 {
        x: fx_mul_spec(vb.x as int, m) as i64,
        y: fx_mul_spec(vb.y as int, m) as i64,
        z: fx_mul_spec(vb.z as int, m) as i64,
    }
}

/// The velocity absorbed by this tick's new contacts: on each axis that
/// rests now but did not before, the velocity it arrived with.
pub open spec fn impact_vec(v: Vec3, new_resting: Vec3i, old_resting: Vec3i) -> Vec3 {
    Vec3 {
        x: if new_resting.x != 0 && old_resting.x == 0 {
            (-(v.x as int)) as i64
        } else {
            0i64
        },
        y: if new_resting.y != 0 && old_resting.y == 0 {
            (-(v.y as int)) as i64
        } else {
            0i64
        },
        z: if new_resting.z != 0 && old_resting.z == 0 {
            (-(v.z as int)) as i64
        } else {
            0i64
        },
    }
}

/// An impact's impulse: the absorbed velocity times the body's mass.
pub open spec fn impact_impulse(imp: Vec3, mass: int) -> Vec3 {
    Vec3 {
        x: fx_mul_spec(imp.x as int, mass) as i64,
        y: fx_mul_spec(imp.y as int, mass) as i64,
        z: fx_mul_spec(imp.z as int, mass) as i64,
    }
}

/// The share of an impulse a restituting body gets back as a bounce.
pub open spec fn bounce_vec(j: Vec3, restitution: int) -> Vec3 {
    Vec3 {
        x: fx_mul_spec(j.x as int, restitution) as i64,
        y: fx_mul_spec(j.y as int, restitution) as i64,
        z: fx_mul_spec(j.z as int, restitution) as i64,
    }
}

/// Everything `iterate_body` promises of a full (awake, dynamic) tick,
/// relating the body after the call to the body before it.
pub open spec fn tick_rel<A: VoxelAccess>(
    space: &A,
    reg: Registry,
    cfg: WorldConfig,
    b: RigidBody,
    n: RigidBody,
    dt: int,
) -> bool {
    &&& n.mass == b.mass && n.friction == b.friction && n.restitution == b.restitution
    &&& n.gravity_multiplier == b.gravity_multiplier && n.air_drag == b.air_drag && n.fluid_drag
        == b.fluid_drag && n.auto_step == b.auto_step
    &&& n.in_fluid == in_fluid_spec(space, reg, b.aabb)
    &&& n.ratio_in_fluid == (if in_fluid_spec(space, reg, b.aabb) {
        fluid_ratio_spec(space, reg, b.aabb)
    } else {
        0
    })
    &&& n.forces.x == 0 && n.forces.y == 0 && n.forces.z == 0
    &&& (forall|i: int|
        0 <= i < 3 ==> (#[trigger] n.resting.axis(i) == 0 || n.resting.axis(i) == 1
            || n.resting.axis(i) == -1))
    &&& (forall|i: int| 0 <= i < 3 && #[trigger] n.resting.axis(i) != 0 ==> n.velocity.axis(i) == 0)
    &&& (forall|i: int|
        0 <= i < 3 && #[trigger] n.resting.axis(i) == 0 ==> n.velocity.axis(i) == pre_contact_vel(
            space,
            reg,
            cfg,
            b,
            dt,
        ).axis(i))
    &&& (forall|i: int|
        0 <= i < 3 && #[trigger] n.resting.axis(i) != 0 ==> crate::sweep::some_solid(space, reg))
    &&& (!n.stepped ==> (forall|i: int|
        0 <= i < 3 && #[trigger] n.resting.axis(i) != 0 ==> (exists|w: Aabb|
            #![auto]
            impact_surface(space, reg, w, i, n.resting.axis(i)) && w.lo(i) == n.aabb.lo(i)
                && w.hi(i) == n.aabb.hi(i))))
    &&& (!n.stepped ==> (forall|i: int|
        0 <= i < 3 ==> #[trigger] n.resting.axis(i) != 0 || n.aabb.lo(i) == b.aabb.lo(i)
            + fx_mul_spec(pre_contact_vel(space, reg, cfg, b, dt).axis(i), dt)))
    &&& n.sleep_frame_count == (if n.velocity.mag_sq() > 10 {
        SLEEP_FRAMES as int
    } else {
        b.sleep_frame_count - 1
    })
    &&& n.collision == (if impact_impulse(
        impact_vec(pre_contact_vel(space, reg, cfg, b, dt), n.resting, b.resting),
        b.mass as int,
    ).mag_sq() > 1 {
        Some(
            impact_impulse(
                impact_vec(pre_contact_vel(space, reg, cfg, b, dt), n.resting, b.resting),
                b.mass as int,
            ),
        )
    } else {
        None::<Vec3>
    })
    &&& n.impulses == (if impact_impulse(
        impact_vec(pre_contact_vel(space, reg, cfg, b, dt), n.resting, b.resting),
        b.mass as int,
    ).mag_sq() > 1 && b.restitution > 0 && impact_impulse(
        impact_vec(pre_contact_vel(space, reg, cfg, b, dt), n.resting, b.resting),
        b.mass as int,
    ).mag_sq() > (cfg.min_bounce_impulse as int) * (cfg.min_bounce_impulse as int) {
        bounce_vec(
            impact_impulse(
                impact_vec(pre_contact_vel(space, reg, cfg, b, dt), n.resting, b.resting),
                b.mass as int,
            ),
            b.restitution as int,
        )
    } else {
        Vec3 { x: 0, y: 0, z: 0 }
    })
    &&& (n.stepped ==> b.auto_step && !box_hits_solid(space, reg, n.aabb))
    &&& n.aabb.wf()
    &&& (forall|i: int|
        0 <= i < 3 ==> #[trigger] n.aabb.hi(i) - n.aabb.lo(i) == b.aabb.hi(i) - b.aabb.lo(i))
}

/// Everything one `iterate_body` call promises, as one relation between the
/// body before and after it: a zero tick is the identity, a static body only
/// sheds velocity and accumulators, a sleeping body is merely cleared, and an
/// awake dynamic body steps by `tick_rel`.
pub open spec fn body_step_rel<A: VoxelAccess>(
    space: &A,
    reg: Registry,
    cfg: WorldConfig,
    b: RigidBody,
    n: RigidBody,
    dt: int,
) -> bool {
    &&& (dt == 0 ==> n == b)
    &&& (dt > 0 && b.mass <= 0 ==> n == static_form(b))
    &&& (dt > 0 && b.mass > 0 && b.sleep_frame_count <= 0 && no_gravity_spec(cfg, b) ==> n
        == rested_form(b))
    &&& (dt > 0 && b.mass > 0 && b.sleep_frame_count > 0 ==> tick_rel(space, reg, cfg, b, n, dt))
    &&& (dt > 0 && b.mass > 0 && b.sleep_frame_count <= 0 && !no_gravity_spec(cfg, b) ==> (n
        == rested_form(b) || tick_rel(space, reg, cfg, b, n, dt)))
}

/// A body left alone by a tick: only the per-tick collision report and the
/// step flag are cleared.
pub open spec fn rested_form(b: RigidBody) -> RigidBody {
    RigidBody { collision: None, stepped: false, ..b }
}

/// A static body after a tick: velocity and accumulators dropped, the
/// per-tick outputs cleared, everything else (the position above all)
/// untouched.
pub open spec fn static_form(b: RigidBody) -> RigidBody {
    RigidBody {
        velocity: Vec3 { x: 0, y: 0, z: 0 },
        forces: Vec3 { x: 0, y: 0, z: 0 },
        impulses: Vec3 { x: 0, y: 0, z: 0 },
        collision: None,
        stepped: false,
        ..b
    }
}

impl Physics {
    /// Whether the body may skip this tick entirely. A body recently poked
    /// awake (positive sleep frame count) never sleeps; without effective
    /// gravity a body at rest sleeps until something wakes it; otherwise the
    /// body sleeps exactly when a probe along half a tick's gravity fall
    /// finds it resting on terrain.
    ///
    /// Relies on the caller to pass `no_gravity` as the world-and-body
    /// gravity test it promises in its precondition.
    pub fn is_body_asleep<A: VoxelAccess>(
        space: &A,
        registry: &Registry,
        config: &WorldConfig,
        body: &RigidBody,
        dt: i64,
        no_gravity: bool,
    ) -> (r: bool)
        requires
            space.inv(),
            registry.wf(),
            config.wf(),
            body.wf(),
            0 <= dt <= DT_LIMIT,
            no_gravity == no_gravity_spec(*config, *body),
        ensures
            body.sleep_frame_count > 0 ==> !r,
            r ==> body.sleep_frame_count <= 0,
            body.sleep_frame_count <= 0 && no_gravity_spec(*config, *body) ==> r,
            r && !no_gravity_spec(*config, *body) ==> crate::sweep::some_solid(space, *registry),
            r && !no_gravity_spec(*config, *body) ==> (exists|b: Aabb, ax: int, dr: int|
                #![auto]
                0 <= ax < 3 && (dr == 1 || dr == -1) && impact_surface(
                    space,
                    *registry,
                    b,
                    ax,
                    dr,
                )),
    {
        if body.sleep_frame_count > 0 {
            return false;
        }
        if no_gravity {
            return true;
        }
        // probe by the distance of half a tick's free fall
        proof {
            lemma_fx_mul_bound(dt as int, dt as int, DT_LIMIT as int, DT_LIMIT as int);
        }
        let t2: i64 = fx_mul(dt, dt);
        proof {
            lemma_fx_mul_bound(t2 as int, body.gravity_multiplier as int, 100_000, 10_000);
        }
        let tg: i64 = fx_mul(t2, body.gravity_multiplier);
        proof {
            lemma_fx_mul_bound(tg as int, 500, 1_000_000, 500);
        }
        let half: i64 = fx_mul(tg, 500);
        proof {
            lemma_fx_mul_bound(config.gravity.x as int, half as int, 100_000, 500_000);
            lemma_fx_mul_bound(config.gravity.y as int, half as int, 100_000, 500_000);
            lemma_fx_mul_bound(config.gravity.z as int, half as int, 100_000, 500_000);
        }
        let sleep_vec = Vec3 {
            x: fx_mul(config.gravity.x, half),
            y: fx_mul(config.gravity.y, half),
            z: fx_mul(config.gravity.z, half),
        };
        let mut probe_box: Aabb = body.aabb;
        let mut probe_dx: Vec3 = sleep_vec;
        match sweep_step(space, registry, &mut probe_box, &mut probe_dx) {
            Some(h) => {
                proof {
                    assert(impact_surface(
                        space,
                        *registry,
                        probe_box,
                        h.axis as int,
                        h.dir as int,
                    ));
                }
                true
            },
            None => false,
        }
    }

    /// Measure how deep the body sits in fluid and, if it is in one, add the
    /// buoyant force to its accumulated forces. Only `in_fluid`,
    /// `ratio_in_fluid` and `forces` change.
    pub fn apply_fluid_forces<A: VoxelAccess>(
        space: &A,
        registry: &Registry,
        config: &WorldConfig,
        body: &mut RigidBody,
    )
        requires
            space.inv(),
            registry.wf(),
            config.wf(),
            old(body).aabb.wf(),
            old(body).aabb.within(crate::rigidbody::POS_LIMIT as int),
            old(body).aabb.dims_at_most(crate::rigidbody::DIM_LIMIT as int),
            old(body).aabb.max_y - old(body).aabb.min_y >= 1,
            old(body).forces.all_abs_at_most(crate::rigidbody::VEL_LIMIT as int),
        ensures
            final(body).in_fluid == in_fluid_spec(space, *registry, old(body).aabb),
            final(body).ratio_in_fluid == (if in_fluid_spec(space, *registry, old(body).aabb) {
                fluid_ratio_spec(space, *registry, old(body).aabb)
            } else {
                0
            }),
            final(body).forces.x == old(body).forces.x + buoyancy_spec(
                space,
                *registry,
                *config,
                old(body).aabb,
                0,
            ),
            final(body).forces.y == old(body).forces.y + buoyancy_spec(
                space,
                *registry,
                *config,
                old(body).aabb,
                1,
            ),
            final(body).forces.z == old(body).forces.z + buoyancy_spec(
                space,
                *registry,
                *config,
                old(body).aabb,
                2,
            ),
            final(body).forces.all_abs_at_most(1_001_000_000_000),
            0 <= final(body).ratio_in_fluid <= FX_ONE,
            *final(body) == (RigidBody {
                in_fluid: final(body).in_fluid,
                ratio_in_fluid: final(body).ratio_in_fluid,
                forces: final(body).forces,
                ..*old(body)
            }),
    {
        let cx: i64 = vox_of(body.aabb.min_x);
        let cz: i64 = vox_of(body.aabb.min_z);
        let y0: i64 = vox_of(body.aabb.min_y);
        let y1: i64 = vox_of(body.aabb.max_y);
        proof {
            crate::fx::lemma_div_trunc_bound(body.aabb.min_x as int, FX_ONE as int, 1_000_000_000_000);
            crate::fx::lemma_div_trunc_bound(body.aabb.min_y as int, FX_ONE as int, 1_000_000_000_000);
            crate::fx::lemma_div_trunc_bound(body.aabb.min_z as int, FX_ONE as int, 1_000_000_000_000);
            crate::fx::lemma_div_trunc_bound(body.aabb.max_y as int, FX_ONE as int, 1_000_000_000_000);
            lemma_vox_floor_mag(body.aabb.min_x as int);
            lemma_vox_floor_mag(body.aabb.min_y as int);
            lemma_vox_floor_mag(body.aabb.min_z as int);
            lemma_vox_floor_mag(body.aabb.max_y as int);
        }
        let bottom: u32 = space.get_voxel(cx, y0, cz);
        if !registry.get_block_by_id(bottom).is_fluid {
            body.in_fluid = false;
            body.ratio_in_fluid = 0;
            return ;
        }
        // walk up the column while it stays fluid
        let mut cy: i64 = y0 + 1;
        let mut blocked: bool = false;
        while !blocked && cy <= y1
            invariant
                space.inv(),
                registry.wf(),
                y0 <= cy - 1 <= y1,
                abs_i(cx as int) <= 1_000_000_001,
                abs_i(cz as int) <= 1_000_000_001,
                abs_i(y0 as int) <= 1_000_000_001,
                abs_i(y1 as int) <= 1_000_000_001,
                blocked ==> !registry.fluid_spec(
                    space.voxel_at(cx as int, cy as int, cz as int) as int,
                ),
                fluid_column_count(space, *registry, cx as int, cz as int, y0 + 1, y1 as int) == (cy
                    - y0 - 1) + fluid_column_count(
                    space,
                    *registry,
                    cx as int,
                    cz as int,
                    cy as int,
                    y1 as int,
                ),
            decreases y1 - cy + (if blocked { 0int } else { 1 }),
        {
            let id: u32 = space.get_voxel(cx, cy, cz);
            if !registry.get_block_by_id(id).is_fluid {
                blocked = true;
            } else {
                cy = cy + 1;
            }
        }
        proof {
            assert(fluid_column_count(space, *registry, cx as int, cz as int, cy as int, y1 as int)
                == 0);
        }
        let fluid_level: i64 = cy;
        let height_in_fluid: i64 = fluid_level * FX_ONE - body.aabb.min_y;
        let box_height: i64 = body.aabb.max_y - body.aabb.min_y;
        proof {
            lemma_fx_div_bound(height_in_fluid as int, box_height as int, 3_000_000_000_000, 1);
        }
        let mut ratio: i64 = fx_div(height_in_fluid, box_height);
        if ratio > FX_ONE {
            ratio = FX_ONE;
        }
        proof {
            // the fluid surface sits above the box's bottom, so the ratio is
            // positive before the clamp
            vstd::arithmetic::div_mod::lemma_fundamental_div_mod(body.aabb.min_y as int, FX_ONE as int);
            vstd::arithmetic::div_mod::lemma_mod_bound(body.aabb.min_y as int, FX_ONE as int);
            crate::fx::lemma_div_trunc_bound(
                (height_in_fluid * FX_ONE) as int,
                box_height as int,
                3_000_000_000_000_000,
            );
            vstd::arithmetic::div_mod::lemma_div_pos_is_pos(
                height_in_fluid * FX_ONE,
                box_height as int,
            );
        }
        let w: i64 = body.aabb.max_x - body.aabb.min_x;
        let h: i64 = box_height;
        let d: i64 = body.aabb.max_z - body.aabb.min_z;
        proof {
            lemma_fx_mul_bound(w as int, h as int, 100_000, 100_000);
            lemma_fx_mul_bound(fx_mul_spec(w as int, h as int), d as int, 10_000_000, 100_000);
            lemma_fx_mul_bound(
                fx_mul_spec(fx_mul_spec(w as int, h as int), d as int),
                ratio as int,
                1_000_000_000,
                1000,
            );
            lemma_fx_mul_bound(
                config.fluid_density as int,
                fx_mul_spec(
                    fx_mul_spec(fx_mul_spec(w as int, h as int), d as int),
                    ratio as int,
                ),
                10_000,
                1_000_000_000,
            );
        }
        let vol: i64 = fx_mul(fx_mul(w, h), d);
        let displaced: i64 = fx_mul(vol, ratio);
        let scalar: i64 = fx_mul(config.fluid_density, displaced);
        proof {
            lemma_fx_mul_bound(config.gravity.x as int, scalar as int, 100_000, 10_000_000_000);
            lemma_fx_mul_bound(config.gravity.y as int, scalar as int, 100_000, 10_000_000_000);
            lemma_fx_mul_bound(config.gravity.z as int, scalar as int, 100_000, 10_000_000_000);
        }
        body.in_fluid = true;
        body.ratio_in_fluid = ratio;
        body.forces.x = body.forces.x + fx_mul(config.gravity.x, scalar);
        body.forces.y = body.forces.y + fx_mul(config.gravity.y, scalar);
        body.forces.z = body.forces.z + fx_mul(config.gravity.z, scalar);
    }
}

/// Both velocity components lateral to `axis` are the old components scaled
/// by the same fixed-point factor `s`.
/// The velocity with the component on `axis` removed.
pub open spec fn lateral_of(v: Vec3, axis: int) -> Vec3 {
    Vec3 {
        x: if axis == 0 {
            0i64
        } else {
            v.x
        },
        y: if axis == 1 {
            0i64
        } else {
            v.y
        },
        z: if axis == 2 {
            0i64
        } else {
            v.z
        },
    }
}

/// Whether friction grips on `axis`: the body rests against a surface there
/// and the tick's velocity change presses into that contact.
pub open spec fn friction_grips(resting: Vec3i, dv: Vec3, axis: int) -> bool {
    resting.axis(axis) != 0 && resting.axis(axis) * dv.axis(axis) > 0
}

/// The factor friction leaves on the lateral speed:
/// `(v_curr - |friction * dv|) / v_curr`, floored at a full stop.
pub open spec fn friction_scalar(v: Vec3, dv: Vec3, friction: int, axis: int) -> int {
    let vc = sqrt_floor(lateral_of(v, axis).mag_sq());
    let dvm = abs_i(fx_mul_spec(friction, dv.axis(axis)));
    if vc > dvm {
        fx_div_spec(vc - dvm, vc)
    } else {
        0
    }
}

/// One axis of friction applied to the velocity: when the contact grips and
/// there is lateral speed, both lateral components scale by the friction
/// factor; the component on the axis itself is untouched.
pub open spec fn friction_step(v: Vec3, resting: Vec3i, dv: Vec3, friction: int, axis: int) -> Vec3 {
    if !friction_grips(resting, dv, axis) || sqrt_floor(lateral_of(v, axis).mag_sq()) == 0 {
        v
    } else {
        let s = friction_scalar(v, dv, friction, axis);
        Vec3 {
            x: if axis == 0 {
                v.x
            } else {
                fx_mul_spec(v.x as int, s) as i64
            },
            y: if axis == 1 {
                v.y
            } else {
                fx_mul_spec(v.y as int, s) as i64
            },
            z: if axis == 2 {
                v.z
            } else {
                fx_mul_spec(v.z as int, s) as i64
            },
        }
    }
}

/// All three axes of friction, applied in axis order.
pub open spec fn friction_pass(v: Vec3, resting: Vec3i, dv: Vec3, friction: int) -> Vec3 {
    friction_step(
        friction_step(friction_step(v, resting, dv, friction, 0), resting, dv, friction, 1),
        resting,
        dv,
        friction,
        2,
    )
}

/// Whether a blocked body is headed firmly enough into its obstruction to
/// try a step: both horizontal axes blocked, or the single blocked axis
/// dominating the direction of travel (the displacement ratio outside a
/// factor of four).
pub open spec fn step_dominance(resting: Vec3i, dx: Vec3) -> bool {
    if resting.x != 0 && resting.z != 0 {
        true
    } else if resting.x != 0 && resting.z == 0 {
        abs_i(dx.x as int) > 4 * abs_i(dx.z as int)
    } else if resting.z != 0 && resting.x == 0 {
        4 * abs_i(dx.x as int) < abs_i(dx.z as int)
    } else {
        false
    }
}

/// The velocity after the friction phase: untouched when the body has no
/// friction, else the full three-axis pass.
pub open spec fn vel_braked(v: Vec3, resting: Vec3i, dv: Vec3, friction: int) -> Vec3 {
    if friction == 0 {
        v
    } else {
        friction_pass(v, resting, dv, friction)
    }
}

impl Physics {
    /// Apply friction on one contact axis: when the body is pressing into
    /// the surface it rests on there (the tick's velocity change points into
    /// the contact), the two velocity components lateral to the axis shrink
    /// together, clamped at a full stop. The component on the axis itself is
    /// untouched.
    pub fn apply_friction_by_axis(axis: usize, body: &mut RigidBody, dvel: &Vec3)
        requires
            axis < 3,
            0 <= old(body).friction <= 10_000,
            old(body).resting.x == 0 || old(body).resting.x == 1 || old(body).resting.x == -1,
            old(body).resting.y == 0 || old(body).resting.y == 1 || old(body).resting.y == -1,
            old(body).resting.z == 0 || old(body).resting.z == 1 || old(body).resting.z == -1,
            old(body).velocity.all_abs_at_most(0x0200_0000_0000_0000),
            dvel.all_abs_at_most(0x0200_0000_0000_0000),
        ensures
            *final(body) == (RigidBody { velocity: final(body).velocity, ..*old(body) }),
            final(body).velocity == friction_step(
                old(body).velocity,
                old(body).resting,
                *dvel,
                old(body).friction as int,
                axis as int,
            ),
            forall|i: int|
                0 <= i < 3 ==> abs_i(#[trigger] final(body).velocity.axis(i)) <= abs_i(
                    old(body).velocity.axis(i),
                ),
    {
        let rest_dir: i32 = body.resting.get(axis);
        if rest_dir == 0 {
            return ;
        }
        let v_normal: i64 = dvel.get(axis);
        if (rest_dir > 0 && v_normal <= 0) || (rest_dir < 0 && v_normal >= 0) {
            proof {
                let ghost rd = body.resting.axis(axis as int);
                let ghost vn = dvel.axis(axis as int);
                assert(rd * vn <= 0) by (nonlinear_arith)
                    requires
                        rd == rest_dir as int,
                        vn == v_normal as int,
                        (rest_dir > 0 && v_normal <= 0) || (rest_dir < 0 && v_normal >= 0),
                ;
            }
            return ;
        }
        proof {
            let ghost rd = body.resting.axis(axis as int);
            let ghost vn = dvel.axis(axis as int);
            assert(!(rd == 0 || rd * vn <= 0)) by (nonlinear_arith)
                requires
                    rd == rest_dir as int,
                    vn == v_normal as int,
                    rest_dir == 1 || rest_dir == -1,
                    (rest_dir > 0 && v_normal > 0) || (rest_dir < 0 && v_normal < 0),
            ;
        }
        let lateral = Vec3 {
            x: if axis == 0 {
                0
            } else {
                body.velocity.x
            },
            y: if axis == 1 {
                0
            } else {
                body.velocity.y
            },
            z: if axis == 2 {
                0
            } else {
                body.velocity.z
            },
        };
        proof {
            assert(0 <= lateral.mag_sq() <= 3 * 0x0200_0000_0000_0000 * 0x0200_0000_0000_0000)
                by (nonlinear_arith)
                requires
                    lateral.all_abs_at_most(0x0200_0000_0000_0000),
            ;
        }
        let sumsq: i128 = lateral.mag_sq_raw();
        let v_curr_u: u64 = isqrt(sumsq as u128);
        proof {
            assert(v_curr_u as int <= 0x0400_0000_0000_0000) by (nonlinear_arith)
                requires
                    (v_curr_u as int) * (v_curr_u as int) <= sumsq as int,
                    sumsq as int <= 3 * 0x0200_0000_0000_0000 * 0x0200_0000_0000_0000,
            ;
            assert(lateral == lateral_of(old(body).velocity, axis as int));
        }
        let v_curr: i64 = v_curr_u as i64;
        if v_curr == 0 {
            return ;
        }
        proof {
            lemma_fx_mul_bound(
                body.friction as int,
                v_normal as int,
                10_000,
                0x0200_0000_0000_0000,
            );
        }
        let raw: i64 = fx_mul(body.friction, v_normal);
        let dv_max: i64 = if raw >= 0 {
            raw
        } else {
            -raw
        };
        let scalar: i64 = if v_curr > dv_max {
            proof {
                lemma_scale_fraction(v_curr as int, dv_max as int);
            }
            fx_div(v_curr - dv_max, v_curr)
        } else {
            0
        };
        let a1: usize = (axis + 1) % 3;
        let a2: usize = (axis + 2) % 3;
        proof {
            lemma_fx_mul_bound(
                body.velocity.axis(a1 as int),
                scalar as int,
                0x0200_0000_0000_0000,
                1000,
            );
            lemma_fx_mul_bound(
                body.velocity.axis(a2 as int),
                scalar as int,
                0x0200_0000_0000_0000,
                1000,
            );
        }
        let va: i64 = fx_mul(body.velocity.get(a1), scalar);
        let vb: i64 = fx_mul(body.velocity.get(a2), scalar);
        body.velocity.set_axis(a1, va);
        body.velocity.set_axis(a2, vb);
        proof {
            assert(a1 as int == ((axis as int) + 1) % 3 && a2 as int == ((axis as int) + 2) % 3);
            assert(scalar as int == friction_scalar(
                old(body).velocity,
                *dvel,
                old(body).friction as int,
                axis as int,
            ));
            lemma_fx_mul_bound(
                old(body).velocity.axis(a1 as int),
                scalar as int,
                abs_i(old(body).velocity.axis(a1 as int)),
                1000,
            );
            lemma_fx_mul_bound(
                old(body).velocity.axis(a2 as int),
                scalar as int,
                abs_i(old(body).velocity.axis(a2 as int)),
                1000,
            );
            vstd::arithmetic::div_mod::lemma_div_nonincreasing(
                abs_i(old(body).velocity.axis(a1 as int)) * 1000,
                1000,
            );
            let ghost fs = friction_step(
                old(body).velocity,
                old(body).resting,
                *dvel,
                old(body).friction as int,
                axis as int,
            );
            assert(friction_grips(old(body).resting, *dvel, axis as int));
            assert(body.velocity.axis(a1 as int) == fx_mul_spec(
                old(body).velocity.axis(a1 as int),
                scalar as int,
            ));
            assert(body.velocity.axis(a2 as int) == fx_mul_spec(
                old(body).velocity.axis(a2 as int),
                scalar as int,
            ));
            assert(body.velocity.axis(axis as int) == old(body).velocity.axis(axis as int));
            if axis == 0 {
                assert(body.velocity.x == fs.x && body.velocity.y == fs.y && body.velocity.z
                    == fs.z);
            } else if axis == 1 {
                assert(body.velocity.x == fs.x && body.velocity.y == fs.y && body.velocity.z
                    == fs.z);
            } else {
                assert(body.velocity.x == fs.x && body.velocity.y == fs.y && body.velocity.z
                    == fs.z);
            }
            assert(body.velocity == fs);
        }
    }

    /// Sweep the box along `dx` against the terrain, zeroing the per-axis
    /// contact flags first and then recording each impact's direction in
    /// them; motion on a hit axis stops while the rest carries on. Returns
    /// how many impacts were resolved, never more than `MAX_SWEEP_ITERS`.
    pub fn process_collisions<A: VoxelAccess>(
        space: &A,
        registry: &Registry,
        aabb: &mut Aabb,
        dx: &Vec3,
        resting: &mut Vec3i,
    ) -> (hits: u32)
        requires
            space.inv(),
            registry.wf(),
            old(aabb).wf(),
            old(aabb).within(2 * SWEEP_LIMIT as int),
            dx.all_abs_at_most(SWEEP_LIMIT as int),
        ensures
            hits <= MAX_SWEEP_ITERS,
            hits <= 3,
            final(aabb).wf(),
            final(aabb).within(3 * SWEEP_LIMIT as int),
            forall|i: int|
                0 <= i < 3 ==> #[trigger] final(aabb).hi(i) - final(aabb).lo(i) == old(aabb).hi(i)
                    - old(aabb).lo(i),
            forall|i: int|
                0 <= i < 3 ==> (dx.axis(i) >= 0 ==> old(aabb).lo(i) <= #[trigger] final(aabb).lo(i)
                    <= old(aabb).lo(i) + dx.axis(i)) && (dx.axis(i) <= 0 ==> old(aabb).lo(i)
                    + dx.axis(i) <= final(aabb).lo(i) <= old(aabb).lo(i)),
            forall|i: int|
                0 <= i < 3 ==> (#[trigger] final(resting).axis(i) == 0 || final(resting).axis(i)
                    == 1 || final(resting).axis(i) == -1),
            forall|i: int| 0 <= i < 3 && #[trigger] final(resting).axis(i) == 1 ==> dx.axis(i) > 0,
            forall|i: int| 0 <= i < 3 && #[trigger] final(resting).axis(i) == -1 ==> dx.axis(i) < 0,
            forall|i: int|
                0 <= i < 3 && #[trigger] final(resting).axis(i) == 0 ==> final(aabb).lo(i) == old(
                    aabb,
                ).lo(i) + dx.axis(i),
            forall|i: int|
                0 <= i < 3 && #[trigger] final(resting).axis(i) != 0 ==> crate::sweep::some_solid(
                    space,
                    *registry,
                ),
            forall|i: int|
                0 <= i < 3 && #[trigger] final(resting).axis(i) == 1 ==> final(aabb).hi(i)
                    == vox_floor(final(aabb).hi(i)) * FX_ONE,
            forall|i: int|
                0 <= i < 3 && #[trigger] final(resting).axis(i) == -1 ==> final(aabb).lo(i)
                    == vox_floor(final(aabb).lo(i)) * FX_ONE,
            forall|i: int|
                0 <= i < 3 && #[trigger] final(resting).axis(i) != 0 ==> (exists|b: Aabb|
                    #![auto]
                    crate::sweep::impact_surface(space, *registry, b, i, final(resting).axis(i))
                        && b.lo(i) == final(aabb).lo(i) && b.hi(i) == final(aabb).hi(i)),
    {
        let mut rem: Vec3 = *dx;
        sweep_collide(space, registry, aabb, &mut rem, resting, MAX_SWEEP_ITERS)
    }

    /// Try to walk the body up a single step: from the pre-collision box,
    /// slide toward the blocked target, raise the box to the next cell
    /// boundary if nothing blocks that, and finish the blocked movement from
    /// up there. The step commits only if the blocked direction then reaches
    /// its target and the raised box stands clear of all solid voxels;
    /// otherwise the body is left exactly as it was.
    pub fn try_auto_stepping<A: VoxelAccess>(
        space: &A,
        registry: &Registry,
        body: &mut RigidBody,
        old_aabb: &Aabb,
        dx: &Vec3,
    )
        requires
            space.inv(),
            registry.wf(),
            old_aabb.wf(),
            old_aabb.within(crate::rigidbody::POS_LIMIT as int),
            dx.all_abs_at_most(SWEEP_LIMIT as int),
            !old(body).stepped,
            old(body).resting.x == 0 || old(body).resting.x == 1 || old(body).resting.x == -1,
            old(body).resting.z == 0 || old(body).resting.z == 1 || old(body).resting.z == -1,
        ensures
            !final(body).stepped ==> *final(body) == *old(body),
            final(body).stepped ==> *final(body) == (RigidBody {
                aabb: final(body).aabb,
                resting: final(body).resting,
                stepped: true,
                ..*old(body)
            }),
            final(body).stepped ==> !box_hits_solid(space, *registry, final(body).aabb)
                && final(body).aabb.wf() && final(body).aabb.within(3 * SWEEP_LIMIT as int) && (
            forall|i: int|
                0 <= i < 3 ==> #[trigger] final(body).aabb.hi(i) - final(body).aabb.lo(i)
                    == old_aabb.hi(i) - old_aabb.lo(i)),
            final(body).resting.y == old(body).resting.y,
            final(body).resting.x == 0 || final(body).resting.x == 1 || final(body).resting.x
                == -1,
            final(body).resting.z == 0 || final(body).resting.z == 1 || final(body).resting.z
                == -1,
            old(body).resting.y >= 0 && !old(body).in_fluid ==> *final(body) == *old(body),
            !step_dominance(old(body).resting, *dx) ==> *final(body) == *old(body),
            final(body).stepped && final(body).resting.x != 0 ==> crate::sweep::some_solid(
                space,
                *registry,
            ),
            final(body).stepped && final(body).resting.z != 0 ==> crate::sweep::some_solid(
                space,
                *registry,
            ),
            final(body).stepped && old(body).resting.x != 0 ==> final(body).aabb.min_x
                == old_aabb.min_x + dx.x,
            final(body).stepped && old(body).resting.z != 0 ==> final(body).aabb.min_z
                == old_aabb.min_z + dx.z,
            final(body).stepped ==> final(body).aabb.lo(1) == vox_floor(final(body).aabb.lo(1))
                * crate::fx::FX_ONE,
    {
        // only a body on the ground or in fluid may step
        if body.resting.y >= 0 && !body.in_fluid {
            return ;
        }
        let x_blocked: bool = body.resting.x != 0;
        let z_blocked: bool = body.resting.z != 0;
        if !x_blocked && !z_blocked {
            return ;
        }
        // step only when headed firmly enough into the obstruction: with one
        // horizontal axis free, the blocked one must dominate the direction
        // of travel
        let ax: i64 = if dx.x >= 0 {
            dx.x
        } else {
            -dx.x
        };
        let az: i64 = if dx.z >= 0 {
            dx.z
        } else {
            -dx.z
        };
        if x_blocked && !z_blocked && !(ax > 4 * az) {
            return ;
        }
        if z_blocked && !x_blocked && !(4 * ax < az) {
            return ;
        }
        let target_x: i64 = old_aabb.min_x + dx.x;
        let target_z: i64 = old_aabb.min_z + dx.z;
        // move toward the target until the first horizontal impact
        let mut candidate: Aabb = *old_aabb;
        let mut cdx: Vec3 = *dx;
        sweep_slide_xz(space, registry, &mut candidate, &mut cdx, MAX_SWEEP_ITERS);
        // raise the box to the next cell boundary; abort if blocked above
        proof {
            lemma_vox_cell(candidate.min_y + 1001);
        }
        let vy: i64 = vox_of(candidate.min_y + 1001);
        let y_dist: i64 = vy * FX_ONE - candidate.min_y;
        let mut upv: Vec3 = Vec3 { x: 0, y: y_dist, z: 0 };
        let up_hit = sweep_step(space, registry, &mut candidate, &mut upv);
        if up_hit.is_some() {
            return ;
        }
        // finish the obstructed movement from the raised position
        let leftover: Vec3 = Vec3 {
            x: target_x - candidate.min_x,
            y: 0,
            z: target_z - candidate.min_z,
        };
        let mut tmp_resting: Vec3i = Vec3i::zero();
        Physics::process_collisions(space, registry, &mut candidate, &leftover, &mut tmp_resting);
        // the blocked direction must have reached its target
        if x_blocked && candidate.min_x != target_x {
            return ;
        }
        if z_blocked && candidate.min_z != target_z {
            return ;
        }
        // never step into terrain
        if box_has_solid(space, registry, &candidate) {
            return ;
        }
        proof {
            assert(tmp_resting.axis(0) == tmp_resting.x && tmp_resting.axis(2) == tmp_resting.z);
        }
        body.aabb = candidate;
        body.resting.x = tmp_resting.x;
        body.resting.z = tmp_resting.z;
        body.stepped = true;
    }
}

/// The acceleration on one axis, read off a body that already carries its
/// buoyant force: force over mass plus scaled gravity.
pub open spec fn accel_cur(b: RigidBody, cfg: WorldConfig, i: int) -> int {
    fx_div_spec(b.forces.axis(i), b.mass as int) + fx_mul_spec(
        cfg.gravity.axis(i),
        b.gravity_multiplier as int,
    )
}

/// The velocity change on one axis over the tick.
pub open spec fn dv_cur(b: RigidBody, cfg: WorldConfig, dt: int, i: int) -> int {
    fx_div_spec(b.impulses.axis(i), b.mass as int) + fx_mul_spec(accel_cur(b, cfg, i), dt)
}

/// The integrated (pre-friction, pre-drag) velocity on one axis.
pub open spec fn vel1_cur(b: RigidBody, cfg: WorldConfig, dt: int, i: int) -> int {
    b.velocity.axis(i) + dv_cur(b, cfg, dt, i)
}

/// The drag coefficient in effect, read off the body's own fluid state.
pub open spec fn drag_cur(b: RigidBody, cfg: WorldConfig) -> int {
    if b.in_fluid {
        let base = match b.fluid_drag {
            Some(d) => d as int,
            None => cfg.fluid_drag as int,
        };
        let depth = FX_ONE - fx_mul_spec(
            FX_ONE - b.ratio_in_fluid,
            FX_ONE - b.ratio_in_fluid,
        );
        fx_mul_spec(base, depth)
    } else {
        match b.air_drag {
            Some(d) => d as int,
            None => cfg.air_drag as int,
        }
    }
}

/// The factor the velocity is scaled by for drag, floored at zero.
pub open spec fn mult_cur(b: RigidBody, cfg: WorldConfig, dt: int) -> int {
    let m = FX_ONE - fx_div_spec(fx_mul_spec(drag_cur(b, cfg), dt), b.mass as int);
    if m < 0 {
        0
    } else {
        m
    }
}

/// The tick's velocity change as a vector, read off a body that already
/// carries its buoyant force.
pub open spec fn dv_cur_vec(b: RigidBody, cfg: WorldConfig, dt: int) -> Vec3 {
    Vec3 {
        x: dv_cur(b, cfg, dt, 0) as i64,
        y: dv_cur(b, cfg, dt, 1) as i64,
        z: dv_cur(b, cfg, dt, 2) as i64,
    }
}

/// The integrated velocity as a vector, read off the same body.
pub open spec fn vel1_cur_vec(b: RigidBody, cfg: WorldConfig, dt: int) -> Vec3 {
    Vec3 {
        x: vel1_cur(b, cfg, dt, 0) as i64,
        y: vel1_cur(b, cfg, dt, 1) as i64,
        z: vel1_cur(b, cfg, dt, 2) as i64,
    }
}

impl Physics {
    /// Fold the accumulated forces and impulses into the velocity: one
    /// semi-implicit Euler step. Returns the velocity change; only the
    /// velocity field moves.
    #[verifier::rlimit(100)]
    fn integrate_velocity(body: &mut RigidBody, dt: i64, config: &WorldConfig) -> (dvel: Vec3)
        requires
            config.wf(),
            0 < dt <= DT_LIMIT,
            0 < old(body).mass <= crate::rigidbody::MASS_LIMIT,
            old(body).forces.all_abs_at_most(1_001_000_000_000),
            old(body).impulses.all_abs_at_most(crate::rigidbody::VEL_LIMIT as int),
            old(body).velocity.all_abs_at_most(crate::rigidbody::VEL_LIMIT as int),
            abs_i(old(body).gravity_multiplier as int) <= crate::rigidbody::RATE_LIMIT,
        ensures
            *final(body) == (RigidBody { velocity: final(body).velocity, ..*old(body) }),
            dvel == dv_cur_vec(*old(body), *config, dt as int),
            final(body).velocity == vel1_cur_vec(*old(body), *config, dt as int),
            final(body).velocity.all_abs_at_most(10_100_000_000_000_000),
            dvel.all_abs_at_most(10_100_000_000_000_000),
    {
        proof {
            lemma_fx_div_bound(body.forces.x as int, body.mass as int, 1_001_000_000_000, 1);
            lemma_fx_div_bound(body.forces.y as int, body.mass as int, 1_001_000_000_000, 1);
            lemma_fx_div_bound(body.forces.z as int, body.mass as int, 1_001_000_000_000, 1);
            lemma_fx_mul_bound(
                config.gravity.x as int,
                body.gravity_multiplier as int,
                100_000,
                10_000,
            );
            lemma_fx_mul_bound(
                config.gravity.y as int,
                body.gravity_multiplier as int,
                100_000,
                10_000,
            );
            lemma_fx_mul_bound(
                config.gravity.z as int,
                body.gravity_multiplier as int,
                100_000,
                10_000,
            );
        }
        let acc_x: i64 = fx_div(body.forces.x, body.mass) + fx_mul(
            config.gravity.x,
            body.gravity_multiplier,
        );
        let acc_y: i64 = fx_div(body.forces.y, body.mass) + fx_mul(
            config.gravity.y,
            body.gravity_multiplier,
        );
        let acc_z: i64 = fx_div(body.forces.z, body.mass) + fx_mul(
            config.gravity.z,
            body.gravity_multiplier,
        );
        proof {
            lemma_fx_div_bound(body.impulses.x as int, body.mass as int, 1_000_000_000, 1);
            lemma_fx_div_bound(body.impulses.y as int, body.mass as int, 1_000_000_000, 1);
            lemma_fx_div_bound(body.impulses.z as int, body.mass as int, 1_000_000_000, 1);
            lemma_fx_mul_bound(acc_x as int, dt as int, 1_002_000_000_000_000, 10_000);
            lemma_fx_mul_bound(acc_y as int, dt as int, 1_002_000_000_000_000, 10_000);
            lemma_fx_mul_bound(acc_z as int, dt as int, 1_002_000_000_000_000, 10_000);
        }
        let dvel = Vec3 {
            x: fx_div(body.impulses.x, body.mass) + fx_mul(acc_x, dt),
            y: fx_div(body.impulses.y, body.mass) + fx_mul(acc_y, dt),
            z: fx_div(body.impulses.z, body.mass) + fx_mul(acc_z, dt),
        };
        body.velocity = Vec3 {
            x: body.velocity.x + dvel.x,
            y: body.velocity.y + dvel.y,
            z: body.velocity.z + dvel.z,
        };
        proof {
            assert(dvel == dv_cur_vec(*old(body), *config, dt as int));
            assert(body.velocity == vel1_cur_vec(*old(body), *config, dt as int));
        }
        dvel
    }

    /// Integrate the accumulated forces and impulses into the velocity, then
    /// apply friction on rested axes and linear drag. Only the velocity
    /// changes.
    #[verifier::rlimit(100)]
    fn integrate_and_drag(body: &mut RigidBody, dt: i64, config: &WorldConfig)
        requires
            config.wf(),
            0 < dt <= DT_LIMIT,
            0 < old(body).mass <= crate::rigidbody::MASS_LIMIT,
            old(body).forces.all_abs_at_most(1_001_000_000_000),
            old(body).impulses.all_abs_at_most(crate::rigidbody::VEL_LIMIT as int),
            old(body).velocity.all_abs_at_most(crate::rigidbody::VEL_LIMIT as int),
            0 <= old(body).friction <= crate::rigidbody::RATE_LIMIT,
            abs_i(old(body).gravity_multiplier as int) <= crate::rigidbody::RATE_LIMIT,
            0 <= old(body).ratio_in_fluid <= FX_ONE,
            (old(body).air_drag matches Some(d) ==> 0 <= d <= crate::rigidbody::RATE_LIMIT),
            (old(body).fluid_drag matches Some(d) ==> 0 <= d <= crate::rigidbody::RATE_LIMIT),
            old(body).resting.x == 0 || old(body).resting.x == 1 || old(body).resting.x == -1,
            old(body).resting.y == 0 || old(body).resting.y == 1 || old(body).resting.y == -1,
            old(body).resting.z == 0 || old(body).resting.z == 1 || old(body).resting.z == -1,
        ensures
            *final(body) == (RigidBody { velocity: final(body).velocity, ..*old(body) }),
            final(body).velocity.all_abs_at_most(10_100_000_000_000_000),
            forall|i: int|
                0 <= i < 3 ==> #[trigger] final(body).velocity.axis(i) == fx_mul_spec(
                    vel_braked(
                        vel1_cur_vec(*old(body), *config, dt as int),
                        old(body).resting,
                        dv_cur_vec(*old(body), *config, dt as int),
                        old(body).friction as int,
                    ).axis(i),
                    mult_cur(*old(body), *config, dt as int),
                ),
    {
        let dvel: Vec3 = Physics::integrate_velocity(body, dt, config);
        let ghost v1 = body.velocity;
        proof {
            assert(dvel == dv_cur_vec(*old(body), *config, dt as int));
            assert(v1 == vel1_cur_vec(*old(body), *config, dt as int));
        }
        if body.friction != 0 {
            Physics::apply_friction_by_axis(0, body, &dvel);
            proof {
                assert(body.velocity.axis(0) == body.velocity.x && body.velocity.axis(1)
                    == body.velocity.y && body.velocity.axis(2) == body.velocity.z);
            }
            Physics::apply_friction_by_axis(1, body, &dvel);
            proof {
                assert(body.velocity.axis(0) == body.velocity.x && body.velocity.axis(1)
                    == body.velocity.y && body.velocity.axis(2) == body.velocity.z);
            }
            Physics::apply_friction_by_axis(2, body, &dvel);
            proof {
                assert(body.velocity.axis(0) == body.velocity.x && body.velocity.axis(1)
                    == body.velocity.y && body.velocity.axis(2) == body.velocity.z);
                assert(body.velocity == friction_pass(
                    v1,
                    old(body).resting,
                    dvel,
                    old(body).friction as int,
                ));
            }
        }
        proof {
            assert(body.velocity == vel_braked(
                v1,
                old(body).resting,
                dvel,
                old(body).friction as int,
            ));
        }
        proof {
            assert(mult_cur(*body, *config, dt as int) == mult_cur(*old(body), *config, dt as int));
            assert(body.velocity.axis(0) == body.velocity.x && body.velocity.axis(1)
                == body.velocity.y && body.velocity.axis(2) == body.velocity.z);
        }
        Physics::apply_drag(body, dt, config);
        proof {
            assert(body.velocity.axis(0) == body.velocity.x && body.velocity.axis(1)
                == body.velocity.y && body.velocity.axis(2) == body.velocity.z);
        }
    }

    /// Scale the velocity down by the linear drag factor: the body's own (or
    /// the world's) air drag, or in fluid the depth-scaled fluid drag, over
    /// one tick. Only the velocity changes.
    #[verifier::rlimit(100)]
    fn apply_drag(body: &mut RigidBody, dt: i64, config: &WorldConfig)
        requires
            config.wf(),
            0 < dt <= DT_LIMIT,
            0 < old(body).mass <= crate::rigidbody::MASS_LIMIT,
            old(body).velocity.all_abs_at_most(10_100_000_000_000_000),
            0 <= old(body).ratio_in_fluid <= FX_ONE,
            (old(body).air_drag matches Some(d) ==> 0 <= d <= crate::rigidbody::RATE_LIMIT),
            (old(body).fluid_drag matches Some(d) ==> 0 <= d <= crate::rigidbody::RATE_LIMIT),
        ensures
            *final(body) == (RigidBody { velocity: final(body).velocity, ..*old(body) }),
            forall|i: int|
                0 <= i < 3 ==> #[trigger] final(body).velocity.axis(i) == fx_mul_spec(
                    old(body).velocity.axis(i),
                    mult_cur(*old(body), *config, dt as int),
                ),
            forall|i: int|
                0 <= i < 3 ==> abs_i(#[trigger] final(body).velocity.axis(i)) <= abs_i(
                    old(body).velocity.axis(i),
                ),
    {
        let drag: i64 = if body.in_fluid {
            let base: i64 = match body.fluid_drag {
                Some(d) => d,
                None => config.fluid_drag,
            };
            let omr: i64 = FX_ONE - body.ratio_in_fluid;
            proof {
                lemma_fx_mul_bound(omr as int, omr as int, 1000, 1000);
            }
            let depth: i64 = FX_ONE - fx_mul(omr, omr);
            proof {
                lemma_fx_mul_bound(base as int, depth as int, 10_000, 1000);
            }
            fx_mul(base, depth)
        } else {
            match body.air_drag {
                Some(d) => d,
                None => config.air_drag,
            }
        };
        proof {
            lemma_fx_mul_bound(drag as int, dt as int, 10_000, 10_000);
            lemma_fx_div_bound(fx_mul_spec(drag as int, dt as int), body.mass as int, 100_000, 1);
        }
        let md: i64 = fx_mul(drag, dt);
        let q: i64 = fx_div(md, body.mass);
        let m0: i64 = FX_ONE - q;
        let mult: i64 = if m0 < 0 {
            0
        } else {
            m0
        };
        proof {
            lemma_fx_mul_bound(
                body.velocity.x as int,
                mult as int,
                10_100_000_000_000_000,
                100_000_000,
            );
            lemma_fx_mul_bound(
                body.velocity.y as int,
                mult as int,
                10_100_000_000_000_000,
                100_000_000,
            );
            lemma_fx_mul_bound(
                body.velocity.z as int,
                mult as int,
                10_100_000_000_000_000,
                100_000_000,
            );
            lemma_fx_mul_bound(
                body.velocity.x as int,
                mult as int,
                abs_i(old(body).velocity.x as int),
                1000,
            );
            lemma_fx_mul_bound(
                body.velocity.y as int,
                mult as int,
                abs_i(old(body).velocity.y as int),
                1000,
            );
            lemma_fx_mul_bound(
                body.velocity.z as int,
                mult as int,
                abs_i(old(body).velocity.z as int),
                1000,
            );
            vstd::arithmetic::div_mod::lemma_div_nonincreasing(
                abs_i(old(body).velocity.x as int) * 1000,
                1000,
            );
        }
        body.velocity = Vec3 {
            x: fx_mul(body.velocity.x, mult),
            y: fx_mul(body.velocity.y, mult),
            z: fx_mul(body.velocity.z, mult),
        };
    }

    /// Turn the tick's new contacts into impulses: a newly rested axis
    /// absorbs the velocity it stopped, strong enough impacts are reported,
    /// a restituting body is handed the bounce back as an impulse, and a body
    /// still in visible motion stays exempt from the sleep check.
    #[verifier::rlimit(100)]
    fn resolve_contacts(body: &mut RigidBody, old_resting: &Vec3i, config: &WorldConfig)
        requires
            config.wf(),
            0 < old(body).mass <= crate::rigidbody::MASS_LIMIT,
            0 <= old(body).restitution <= FX_ONE,
            old(body).velocity.all_abs_at_most(10_100_000_000_000_000),
            abs_i(old(body).sleep_frame_count as int) <= 1_000_001,
        ensures
            *final(body) == (RigidBody {
                velocity: final(body).velocity,
                impulses: final(body).impulses,
                collision: final(body).collision,
                sleep_frame_count: final(body).sleep_frame_count,
                ..*old(body)
            }),
            forall|i: int|
                0 <= i < 3 ==> #[trigger] final(body).velocity.axis(i) == (
                if old(body).resting.axis(i) != 0 {
                    0int
                } else {
                    old(body).velocity.axis(i)
                }),
            final(body).collision == (if impact_impulse(
                impact_vec(old(body).velocity, old(body).resting, *old_resting),
                old(body).mass as int,
            ).mag_sq() > 1 {
                Some(
                    impact_impulse(
                        impact_vec(old(body).velocity, old(body).resting, *old_resting),
                        old(body).mass as int,
                    ),
                )
            } else {
                old(body).collision
            }),
            final(body).impulses == (if impact_impulse(
                impact_vec(old(body).velocity, old(body).resting, *old_resting),
                old(body).mass as int,
            ).mag_sq() > 1 && old(body).restitution > 0 && impact_impulse(
                impact_vec(old(body).velocity, old(body).resting, *old_resting),
                old(body).mass as int,
            ).mag_sq() > (config.min_bounce_impulse as int) * (config.min_bounce_impulse as int) {
                bounce_vec(
                    impact_impulse(
                        impact_vec(old(body).velocity, old(body).resting, *old_resting),
                        old(body).mass as int,
                    ),
                    old(body).restitution as int,
                )
            } else {
                old(body).impulses
            }),
            final(body).sleep_frame_count == (if final(body).velocity.mag_sq() > 10 {
                SLEEP_FRAMES as int
            } else {
                old(body).sleep_frame_count as int
            }),
    {
        let ghost iv = impact_vec(old(body).velocity, old(body).resting, *old_resting);
        let mut impacts: Vec3 = Vec3::zero();
        if body.resting.x != 0 {
            if old_resting.x == 0 {
                impacts.x = -body.velocity.x;
            }
            body.velocity.x = 0;
        }
        if body.resting.y != 0 {
            if old_resting.y == 0 {
                impacts.y = -body.velocity.y;
            }
            body.velocity.y = 0;
        }
        if body.resting.z != 0 {
            if old_resting.z == 0 {
                impacts.z = -body.velocity.z;
            }
            body.velocity.z = 0;
        }
        proof {
            assert(impacts == iv);
        }
        proof {
            lemma_fx_mul_bound(
                impacts.x as int,
                body.mass as int,
                10_100_000_000_000_000,
                100_000,
            );
            lemma_fx_mul_bound(
                impacts.y as int,
                body.mass as int,
                10_100_000_000_000_000,
                100_000,
            );
            lemma_fx_mul_bound(
                impacts.z as int,
                body.mass as int,
                10_100_000_000_000_000,
                100_000,
            );
        }
        let jv = Vec3 {
            x: fx_mul(impacts.x, body.mass),
            y: fx_mul(impacts.y, body.mass),
            z: fx_mul(impacts.z, body.mass),
        };
        proof {
            assert(jv == impact_impulse(iv, old(body).mass as int));
        }
        let jsq: i128 = jv.mag_sq_raw();
        if jsq > 1 {
            let jx: i64 = jv.x;
            let jy: i64 = jv.y;
            let jz: i64 = jv.z;
            body.collision = Some(Vec3 { x: jx, y: jy, z: jz });
            if body.restitution > 0 {
                proof {
                    assert((config.min_bounce_impulse as int) * (config.min_bounce_impulse as int)
                        <= 1_000_000_000_000_000_000) by (nonlinear_arith)
                        requires
                            0 <= config.min_bounce_impulse <= 1_000_000_000,
                    ;
                }
                let mbisq: i128 = (config.min_bounce_impulse as i128) * (
                config.min_bounce_impulse as i128);
                if jsq > mbisq {
                    proof {
                        lemma_fx_mul_bound(
                            jx as int,
                            body.restitution as int,
                            1_010_000_000_000_000_000,
                            1000,
                        );
                        lemma_fx_mul_bound(
                            jy as int,
                            body.restitution as int,
                            1_010_000_000_000_000_000,
                            1000,
                        );
                        lemma_fx_mul_bound(
                            jz as int,
                            body.restitution as int,
                            1_010_000_000_000_000_000,
                            1000,
                        );
                    }
                    body.impulses = Vec3 {
                        x: fx_mul(jx, body.restitution),
                        y: fx_mul(jy, body.restitution),
                        z: fx_mul(jz, body.restitution),
                    };
                }
            }
        }
        let vsq: i128 = body.velocity.mag_sq_raw();
        if vsq > 10 {
            body.sleep_frame_count = SLEEP_FRAMES;
        }
    }
}

impl Physics {
    /// Advance one rigid body by one tick of `dt` fixed-point seconds
    /// against the voxel terrain: buoyancy, semi-implicit Euler integration,
    /// friction on contact axes, drag, swept collision resolution with
    /// optional auto-stepping, contact impulses with restitution, and the
    /// sleep bookkeeping. A zero tick changes nothing; a static body only
    /// sheds its velocity and accumulators; a sleeping body is left alone.
    #[verifier::rlimit(100)]
    pub fn iterate_body<A: VoxelAccess>(
        body: &mut RigidBody,
        dt: i64,
        space: &A,
        registry: &Registry,
        config: &WorldConfig,
    )
        requires
            space.inv(),
            registry.wf(),
            config.wf(),
            old(body).wf(),
            0 <= dt <= DT_LIMIT,
        ensures
            dt == 0 ==> *final(body) == *old(body),
            dt > 0 && old(body).mass <= 0 ==> *final(body) == static_form(*old(body)),
            dt > 0 && old(body).mass > 0 && old(body).sleep_frame_count <= 0 && no_gravity_spec(
                *config,
                *old(body),
            ) ==> *final(body) == rested_form(*old(body)),
            dt > 0 && old(body).mass > 0 && old(body).sleep_frame_count > 0 ==> tick_rel(
                space,
                *registry,
                *config,
                *old(body),
                *final(body),
                dt as int,
            ),
            dt > 0 && old(body).mass > 0 && old(body).sleep_frame_count <= 0 && !no_gravity_spec(
                *config,
                *old(body),
            ) ==> (*final(body) == rested_form(*old(body)) || tick_rel(
                space,
                *registry,
                *config,
                *old(body),
                *final(body),
                dt as int,
            )),
            body_step_rel(space, *registry, *config, *old(body), *final(body), dt as int),
    {
        if dt == 0 {
            return ;
        }
        let gsq: i128 = config.gravity.mag_sq_raw();
        let local_no_grav: bool = gsq < 10 || body.gravity_multiplier == 0;
        body.collision = None;
        body.stepped = false;
        if body.mass <= 0 {
            body.velocity = Vec3::zero();
            body.forces = Vec3::zero();
            body.impulses = Vec3::zero();
            return ;
        }
        let asleep: bool = Physics::is_body_asleep(
            space,
            registry,
            config,
            body,
            dt,
            local_no_grav,
        );
        if asleep {
            return ;
        }
        body.sleep_frame_count = body.sleep_frame_count - 1;
        let old_resting: Vec3i = body.resting;
        Physics::apply_fluid_forces(space, registry, config, body);
        let ghost pf = *body;
        Physics::integrate_and_drag(body, dt, config);
        proof {
            // the helper's reading of the post-buoyancy body matches the
            // contract's reading of the body as it entered the tick
            assert(pf.forces.axis(0) == pf.forces.x && pf.forces.axis(1) == pf.forces.y
                && pf.forces.axis(2) == pf.forces.z);
            let ghost b0 = *old(body);
            assert(b0.forces.axis(0) == b0.forces.x && b0.forces.axis(1) == b0.forces.y
                && b0.forces.axis(2) == b0.forces.z);
            assert forall|i: int| 0 <= i < 3 implies dv_cur(pf, *config, dt as int, i) == dv_spec(
                space,
                *registry,
                *config,
                b0,
                dt as int,
                i,
            ) && vel1_cur(pf, *config, dt as int, i) == vel1_spec(
                space,
                *registry,
                *config,
                b0,
                dt as int,
                i,
            ) by {
                assert(pf.forces.axis(i) == b0.forces.axis(i) + buoyancy_spec(
                    space,
                    *registry,
                    *config,
                    b0.aabb,
                    i,
                ));
                assert(accel_cur(pf, *config, i) == accel_spec(space, *registry, *config, b0, i));
            }
            assert(drag_cur(pf, *config) == drag_spec(space, *registry, *config, b0));
            assert(mult_cur(pf, *config, dt as int) == drag_mult_spec(
                space,
                *registry,
                *config,
                b0,
                dt as int,
            ));
            assert(dv_cur_vec(pf, *config, dt as int) == dv_vec3(
                space,
                *registry,
                *config,
                b0,
                dt as int,
            ));
            assert(vel1_cur_vec(pf, *config, dt as int) == vel1_vec3(
                space,
                *registry,
                *config,
                b0,
                dt as int,
            ));
            let ghost pcv = pre_contact_vel(space, *registry, *config, b0, dt as int);
            assert(body.velocity.axis(0) == body.velocity.x && body.velocity.axis(1)
                == body.velocity.y && body.velocity.axis(2) == body.velocity.z);
            assert(body.velocity.x == pcv.x && body.velocity.y == pcv.y && body.velocity.z
                == pcv.z);
            assert(body.velocity == pcv);
        }
        // the tick's displacement; accumulators are spent
        proof {
            lemma_fx_mul_bound(body.velocity.x as int, dt as int, 10_100_000_000_000_000, 10_000);
            lemma_fx_mul_bound(body.velocity.y as int, dt as int, 10_100_000_000_000_000, 10_000);
            lemma_fx_mul_bound(body.velocity.z as int, dt as int, 10_100_000_000_000_000, 10_000);
        }
        let dx = Vec3 {
            x: fx_mul(body.velocity.x, dt),
            y: fx_mul(body.velocity.y, dt),
            z: fx_mul(body.velocity.z, dt),
        };
        body.forces = Vec3::zero();
        body.impulses = Vec3::zero();
        let tmp_box: Aabb = body.aabb;
        Physics::process_collisions(space, registry, &mut body.aabb, &dx, &mut body.resting);
        proof {
            assert(body.resting.axis(0) == body.resting.x && body.resting.axis(1)
                == body.resting.y && body.resting.axis(2) == body.resting.z);
        }
        if body.auto_step {
            Physics::try_auto_stepping(space, registry, body, &tmp_box, &dx);
        }
        proof {
            assert(body.resting.axis(0) == body.resting.x && body.resting.axis(1)
                == body.resting.y && body.resting.axis(2) == body.resting.z);
        }
        let ghost pre_resolve = *body;
        Physics::resolve_contacts(body, &old_resting, config);
        proof {
            let ghost b0 = *old(body);
            let ghost pcv = pre_contact_vel(space, *registry, *config, b0, dt as int);
            assert(body.resting.axis(0) == body.resting.x && body.resting.axis(1)
                == body.resting.y && body.resting.axis(2) == body.resting.z);
            assert(body.velocity.axis(0) == body.velocity.x && body.velocity.axis(1)
                == body.velocity.y && body.velocity.axis(2) == body.velocity.z);
            assert(body.forces.axis(0) == body.forces.x && body.forces.axis(1) == body.forces.y
                && body.forces.axis(2) == body.forces.z);
            assert(pre_resolve.velocity == pcv);
            assert(old_resting == b0.resting);
            assert(impact_vec(pre_resolve.velocity, pre_resolve.resting, old_resting) == impact_vec(
                pcv,
                body.resting,
                b0.resting,
            ));
            assert(dx.axis(0) == dx.x && dx.axis(1) == dx.y && dx.axis(2) == dx.z);
            assert(pcv.axis(0) == pcv.x && pcv.axis(1) == pcv.y && pcv.axis(2) == pcv.z);
        }
    }
}

/// After a full dynamic tick the force and impulse accumulators are spent:
/// both come out zero (impulses need the body to be without restitution,
/// which would re-arm them for a bounce).
pub proof fn lemma_accumulators_cleared<A: VoxelAccess>(
    space: &A,
    reg: Registry,
    cfg: WorldConfig,
    b: RigidBody,
    n: RigidBody,
    dt: int,
)
    requires
        tick_rel(space, reg, cfg, b, n, dt),
        b.restitution == 0,
    ensures
        n.forces.x == 0 && n.forces.y == 0 && n.forces.z == 0,
        n.impulses.x == 0 && n.impulses.y == 0 && n.impulses.z == 0,
{
}

/// After a full dynamic tick, every axis that rests against terrain carries
/// no velocity.
pub proof fn lemma_resting_axes_stopped<A: VoxelAccess>(
    space: &A,
    reg: Registry,
    cfg: WorldConfig,
    b: RigidBody,
    n: RigidBody,
    dt: int,
)
    requires
        tick_rel(space, reg, cfg, b, n, dt),
    ensures
        forall|i: int| 0 <= i < 3 && #[trigger] n.resting.axis(i) != 0 ==> n.velocity.axis(i) == 0,
{
}

/// A static body comes out of a tick with its box exactly where it was and
/// without any motion, whatever forces or impulses were queued on it.
pub proof fn lemma_static_body_unmoved(b: RigidBody, n: RigidBody)
    requires
        n == static_form(b),
    ensures
        n.aabb == b.aabb,
        n.velocity == (Vec3 { x: 0, y: 0, z: 0 }),
        n.forces == (Vec3 { x: 0, y: 0, z: 0 }),
        n.impulses == (Vec3 { x: 0, y: 0, z: 0 }),
{
}

/// A body that sleeps for want of gravity stays asleep: the tick leaves all
/// fields that feed the sleep decision untouched, so the next tick, under the
/// same world, reaches the same verdict.
pub proof fn lemma_sleep_idempotent(cfg: WorldConfig, b: RigidBody, n: RigidBody)
    requires
        n == rested_form(b),
        b.sleep_frame_count <= 0,
        no_gravity_spec(cfg, b),
    ensures
        n.sleep_frame_count <= 0,
        no_gravity_spec(cfg, n),
        rested_form(n) == n,
{
}

/// A committed auto-step never leaves the body overlapping a solid voxel.
pub proof fn lemma_auto_step_clear<A: VoxelAccess>(
    space: &A,
    reg: Registry,
    cfg: WorldConfig,
    b: RigidBody,
    n: RigidBody,
    dt: int,
)
    requires
        tick_rel(space, reg, cfg, b, n, dt),
        n.stepped,
    ensures
        !box_hits_solid(space, reg, n.aabb),
{
}

/// The fraction `(v - d) / v` of a positive magnitude lies between zero and
/// one.
proof fn lemma_scale_fraction(v: int, d: int)
    requires
        0 <= d < v,
    ensures
        0 <= fx_div_spec(v - d, v) <= FX_ONE,
{
    crate::fx::lemma_div_trunc_mag((v - d) * (FX_ONE as int), v);
    assert((v - d) * (FX_ONE as int) >= 0) by (nonlinear_arith)
        requires
            0 <= d < v,
    ;
    assert(abs_i((v - d) * (FX_ONE as int)) <= v * (FX_ONE as int)) by (nonlinear_arith)
        requires
            0 <= d < v,
    ;
    vstd::arithmetic::div_mod::lemma_div_is_ordered(
        abs_i((v - d) * (FX_ONE as int)),
        v * (FX_ONE as int),
        v,
    );
    vstd::arithmetic::div_mod::lemma_div_multiples_vanish(FX_ONE as int, v);
    assert(v * (FX_ONE as int) == (FX_ONE as int) * v) by (nonlinear_arith);
}

/// Every coordinate sits inside its cell: the cell's base is at most the
/// coordinate and the next base is beyond it.
proof fn lemma_vox_cell(a: int)
    ensures
        vox_floor(a) * (FX_ONE as int) <= a,
        a < (vox_floor(a) + 1) * (FX_ONE as int),
        abs_i(vox_floor(a) * (FX_ONE as int)) <= abs_i(a) + 1000,
{
    vstd::arithmetic::div_mod::lemma_fundamental_div_mod(a, FX_ONE as int);
    vstd::arithmetic::div_mod::lemma_mod_bound(a, FX_ONE as int);
    assert((a / 1000) * 1000 <= a < (a / 1000 + 1) * 1000 && abs_i((a / 1000) * 1000) <= abs_i(a)
        + 1000) by (nonlinear_arith)
        requires
            1000 * (a / 1000) + a % 1000 == a,
            0 <= a % 1000 < 1000,
    ;
}

/// Cell indices of coordinates within the world's position bounds stay within
/// a thousandth of them.
proof fn lemma_vox_floor_mag(a: int)
    requires
        abs_i(a) <= 1_000_000_000_000,
    ensures
        abs_i(vox_floor(a)) <= 1_000_000_001,
        vox_floor(a) * (FX_ONE as int) <= a < (vox_floor(a) + 1) * (FX_ONE as int),
{
    vstd::arithmetic::div_mod::lemma_fundamental_div_mod(a, FX_ONE as int);
    vstd::arithmetic::div_mod::lemma_mod_bound(a, FX_ONE as int);
    assert(abs_i(a / 1000) <= 1_000_000_001 && (a / 1000) * 1000 <= a < (a / 1000 + 1) * 1000)
        by (nonlinear_arith)
        requires
            1000 * (a / 1000) + a % 1000 == a,
            0 <= a % 1000 < 1000,
            abs_i(a) <= 1_000_000_000_000,
    ;
}

} // verus!
