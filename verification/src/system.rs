use vstd::prelude::*;

use crate::config::{ChunkCoords, WorldConfig};
use crate::fx::{abs_i, fx_div, fx_div_spec, fx_mul, fx_mul_spec, isqrt};
use crate::physics::{body_step_rel, Physics, DT_LIMIT};
use crate::registry::Registry;
use crate::rigidbody::{RigidBody, POS_LIMIT};
use crate::vec3::Vec3;
use crate::voxels::{key_of, Chunks, VoxelAccess};

verus! {

/// The per-tick physics pass of a world: integrate every non-client body
/// against the ready terrain, fold the external engine's collision events
/// back onto entities, and push overlapping interactors apart.
pub struct PhysicsSystem;

/// One collision event reported by the external rigid-body engine, reduced to
/// the raw handles of the two colliders involved.
#[derive(Clone, Copy, PartialEq, Eq, Structural, Debug)]
pub struct ContactEvent {
    pub started: bool,
    pub a: u64,
    pub b: u64,
}

/// The binding of an external collider handle to the entity that owns it.
#[derive(Clone, Copy, PartialEq, Eq, Structural, Debug)]
pub struct HandleBinding {
    pub handle: u64,
    pub entity: u64,
}

/// A collision event as delivered to one entity: whether it started, the
/// entity on the other side, and the index of the event it came from.
#[derive(Clone, Copy, PartialEq, Eq, Structural, Debug)]
pub struct CollisionTag {
    pub entity: u64,
    pub started: bool,
    pub other: u64,
    pub event: usize,
}

/// Whether the chunk a body stands in has finished the whole pipeline.
pub open spec fn chunk_ready_spec(chunks: Chunks, c: ChunkCoords, stage_count: int) -> bool {
    chunks.map@.contains_key(key_of(c.x, c.z)) && chunks.map@[key_of(c.x, c.z)].stage
        >= stage_count
}

/// The entity a handle is bound to: the first binding that carries it.
pub open spec fn lookup_entity(map: Seq<HandleBinding>, h: u64, j: int) -> Option<u64>
    decreases map.len() - j,
{
    if j < 0 || j >= map.len() {
        None
    } else if map[j].handle == h {
        Some(map[j].entity)
    } else {
        lookup_entity(map, h, j + 1)
    }
}

/// The tags the events from index `k` on produce: each event whose two
/// handles both resolve to entities is delivered to both sides, tagged with
/// the opposing entity.
pub open spec fn pair_from(events: Seq<ContactEvent>, map: Seq<HandleBinding>, k: int) -> Seq<
    CollisionTag,
>
    decreases events.len() - k,
{
    if k < 0 || k >= events.len() {
        Seq::empty()
    } else {
        let rest = pair_from(events, map, k + 1);
        let e = events[k];
        match (lookup_entity(map, e.a, 0), lookup_entity(map, e.b, 0)) {
            (Some(ea), Some(eb)) => seq![
                CollisionTag { entity: ea, started: e.started, other: eb, event: k as usize },
                CollisionTag { entity: eb, started: e.started, other: ea, event: k as usize },
            ] + rest,
            _ => rest,
        }
    }
}

/// A fixed-point value clamped to at most three units away from zero.
pub open spec fn clamp3(v: int) -> int {
    if v > 3000 {
        3000int
    } else if v < -3000 {
        -3000int
    } else {
        v
    }
}

/// The direction a repulsed body is pushed along: the engine's movement of
/// its twin minus its own position, normalized to unit length; a separation
/// with no horizontal part gets the caller's jitter sideways instead.
pub open spec fn push_direction(pos: Vec3, moved: Vec3, jx: int, jz: int) -> Vec3 {
    let d = Vec3 {
        x: (moved.x - pos.x) as i64,
        y: (moved.y - pos.y) as i64,
        z: (moved.z - pos.z) as i64,
    };
    let len = crate::fx::sqrt_floor(d.mag_sq());
    let nx = fx_div_spec(d.x as int, len);
    let ny = fx_div_spec(d.y as int, len);
    let nz = fx_div_spec(d.z as int, len);
    if nx == 0 && nz == 0 {
        Vec3 { x: jx as i64, y: ny as i64, z: jz as i64 }
    } else {
        Vec3 { x: nx as i64, y: ny as i64, z: nz as i64 }
    }
}

/// The whole repulsion impulse: nothing for coincident bodies, else the push
/// direction scaled by the world's repulsion and clamped per axis at three
/// units either way.
pub open spec fn repulsion_spec(pos: Vec3, moved: Vec3, repulsion: int, jx: int, jz: int) -> Vec3 {
    let d = Vec3 {
        x: (moved.x - pos.x) as i64,
        y: (moved.y - pos.y) as i64,
        z: (moved.z - pos.z) as i64,
    };
    if d.mag_sq() == 0 {
        Vec3 { x: 0, y: 0, z: 0 }
    } else {
        let n = push_direction(pos, moved, jx, jz);
        Vec3 {
            x: clamp3(fx_mul_spec(n.x as int, repulsion)) as i64,
            y: clamp3(fx_mul_spec(n.y as int, repulsion)) as i64,
            z: clamp3(fx_mul_spec(n.z as int, repulsion)) as i64,
        }
    }
}

impl PhysicsSystem {
    /// Integrate every body whose chunk is ready, writing each result over
    /// its slot. Each outcome is constrained by that body's own prior state
    /// alone -- no entry reads or writes another's -- which is what makes
    /// fanning the per-entity work out in parallel equivalent to this serial
    /// pass.
    pub fn integrate_all(
        chunks: &Chunks,
        registry: &Registry,
        config: &WorldConfig,
        dt: i64,
        stage_count: usize,
        coords: &Vec<ChunkCoords>,
        bodies: &mut Vec<RigidBody>,
    )
        requires
            chunks.wf(),
            registry.wf(),
            config.wf(),
            0 <= dt <= DT_LIMIT,
            coords@.len() == old(bodies)@.len(),
            forall|i: int| 0 <= i < old(bodies)@.len() ==> (#[trigger] old(bodies)@[i]).wf(),
        ensures
            final(bodies)@.len() == old(bodies)@.len(),
            forall|i: int|
                0 <= i < old(bodies)@.len() && chunk_ready_spec(
                    *chunks,
                    coords@[i],
                    stage_count as int,
                ) ==> body_step_rel(
                    chunks,
                    *registry,
                    *config,
                    old(bodies)@[i],
                    #[trigger] final(bodies)@[i],
                    dt as int,
                ),
            forall|i: int|
                0 <= i < old(bodies)@.len() && !chunk_ready_spec(
                    *chunks,
                    coords@[i],
                    stage_count as int,
                ) ==> #[trigger] final(bodies)@[i] == old(bodies)@[i],
    {
        let n: usize = bodies.len();
        let mut i: usize = 0;
        while i < n
            invariant
                chunks.wf(),
                registry.wf(),
                config.wf(),
                0 <= dt <= DT_LIMIT,
                n == old(bodies)@.len(),
                coords@.len() == n,
                bodies@.len() == n,
                i <= n,
                forall|j: int| i as int <= j < n ==> #[trigger] bodies@[j] == old(bodies)@[j],
                forall|j: int| 0 <= j < old(bodies)@.len() ==> (#[trigger] old(bodies)@[j]).wf(),
                forall|j: int|
                    0 <= j < i as int && chunk_ready_spec(
                        *chunks,
                        coords@[j],
                        stage_count as int,
                    ) ==> body_step_rel(
                        chunks,
                        *registry,
                        *config,
                        old(bodies)@[j],
                        #[trigger] bodies@[j],
                        dt as int,
                    ),
                forall|j: int|
                    0 <= j < i as int && !chunk_ready_spec(
                        *chunks,
                        coords@[j],
                        stage_count as int,
                    ) ==> #[trigger] bodies@[j] == old(bodies)@[j],
            decreases n - i,
        {
            let c: ChunkCoords = coords[i];
            if chunks.is_chunk_ready(c.x, c.z, stage_count) {
                let mut b: RigidBody = bodies[i];
                Physics::iterate_body(&mut b, dt, chunks, registry, config);
                bodies[i] = b;
            }
            i = i + 1;
        }
    }

    /// Resolve one collider handle to its entity.
    pub fn find_entity(map: &Vec<HandleBinding>, h: u64) -> (r: Option<u64>)
        ensures
            r == lookup_entity(map@, h, 0),
    {
        let n: usize = map.len();
        let mut j: usize = 0;
        while j < n
            invariant
                n == map@.len(),
                j <= n,
                lookup_entity(map@, h, 0) == lookup_entity(map@, h, j as int),
            decreases n - j,
        {
            if map[j].handle == h {
                return Some(map[j].entity);
            }
            j = j + 1;
        }
        None
    }

    /// Deliver the external engine's collision events to entities: an event
    /// whose colliders both belong to known entities is recorded for each of
    /// the two, tagged with the entity on the other side; events with an
    /// unknown handle are dropped.
    pub fn pair_collisions(events: &Vec<ContactEvent>, map: &Vec<HandleBinding>) -> (r: Vec<
        CollisionTag,
    >)
        ensures
            r@ == pair_from(events@, map@, 0),
    {
        let n: usize = events.len();
        let mut out: Vec<CollisionTag> = Vec::new();
        let mut k: usize = 0;
        while k < n
            invariant
                n == events@.len(),
                k <= n,
                pair_from(events@, map@, 0) =~= out@ + pair_from(events@, map@, k as int),
            decreases n - k,
        {
            let e: ContactEvent = events[k];
            let ea = PhysicsSystem::find_entity(map, e.a);
            let eb = PhysicsSystem::find_entity(map, e.b);
            let ghost pre = out@;
            if ea.is_some() && eb.is_some() {
                let ent_a: u64 = ea.unwrap();
                let ent_b: u64 = eb.unwrap();
                out.push(CollisionTag { entity: ent_a, started: e.started, other: ent_b, event: k });
                out.push(CollisionTag { entity: ent_b, started: e.started, other: ent_a, event: k });
            }
            proof {
                assert(pair_from(events@, map@, 0) =~= out@ + pair_from(
                    events@,
                    map@,
                    k as int + 1,
                ));
            }
            k = k + 1;
        }
        proof {
            assert(out@ + pair_from(events@, map@, n as int) =~= out@);
        }
        out
    }

    /// The soft impulse that pushes an interactor's voxel body away from
    /// where the external engine moved its twin: the (normalized) separation
    /// scaled by the world's repulsion, clamped at three units either way per
    /// axis. Two bodies at exactly the same spot get no push here; two bodies
    /// separated only vertically are given the caller's small horizontal
    /// jitter so stacks fall apart.
    pub fn repulsion_impulse(
        pos: Vec3,
        moved: Vec3,
        repulsion: i64,
        jitter_x: i64,
        jitter_z: i64,
    ) -> (r: Vec3)
        requires
            pos.all_abs_at_most(POS_LIMIT as int),
            moved.all_abs_at_most(POS_LIMIT as int),
            0 <= repulsion <= 1_000_000,
            abs_i(jitter_x as int) <= 10,
            abs_i(jitter_z as int) <= 10,
        ensures
            r == repulsion_spec(pos, moved, repulsion as int, jitter_x as int, jitter_z as int),
            -3000 <= r.x <= 3000 && -3000 <= r.y <= 3000 && -3000 <= r.z <= 3000,
            moved == pos ==> r == (Vec3 { x: 0, y: 0, z: 0 }),
    {
        let d = Vec3 { x: moved.x - pos.x, y: moved.y - pos.y, z: moved.z - pos.z };
        proof {
            assert(d.mag_sq() >= 0 && (d.x as int) * (d.x as int) <= d.mag_sq() && (d.y as int) * (
            d.y as int) <= d.mag_sq() && (d.z as int) * (d.z as int) <= d.mag_sq())
                by (nonlinear_arith)
            ;
        }
        let lensq: i128 = d.mag_sq_raw();
        if lensq == 0 {
            return Vec3::zero();
        }
        let len_u: u64 = isqrt(lensq as u128);
        proof {
            lemma_norm_bounds(d, len_u as int, lensq as int);
        }
        let len: i64 = len_u as i64;
        proof {
            crate::fx::lemma_fx_div_bound(d.x as int, len as int, abs_i(d.x as int), 1);
            crate::fx::lemma_fx_div_bound(d.y as int, len as int, abs_i(d.y as int), 1);
            crate::fx::lemma_fx_div_bound(d.z as int, len as int, abs_i(d.z as int), 1);
            lemma_unit_component(d.x as int, len as int, lensq as int);
            lemma_unit_component(d.y as int, len as int, lensq as int);
            lemma_unit_component(d.z as int, len as int, lensq as int);
        }
        let mut nx: i64 = fx_div(d.x, len);
        let ny: i64 = fx_div(d.y, len);
        let mut nz: i64 = fx_div(d.z, len);
        // a purely vertical separation would never resolve: nudge it sideways
        if nx == 0 && nz == 0 {
            nx = jitter_x;
            nz = jitter_z;
        }
        proof {
            crate::fx::lemma_fx_mul_bound(nx as int, repulsion as int, 1000, 1_000_000);
            crate::fx::lemma_fx_mul_bound(ny as int, repulsion as int, 1000, 1_000_000);
            crate::fx::lemma_fx_mul_bound(nz as int, repulsion as int, 1000, 1_000_000);
        }
        let ix: i64 = fx_mul(nx, repulsion);
        let iy: i64 = fx_mul(ny, repulsion);
        let iz: i64 = fx_mul(nz, repulsion);
        proof {
            if moved == pos {
                assert(d.x == 0 && d.y == 0 && d.z == 0);
                assert(d.mag_sq() == 0) by (nonlinear_arith)
                    requires
                        d.x == 0 && d.y == 0 && d.z == 0,
                ;
            }
            let ghost n = push_direction(pos, moved, jitter_x as int, jitter_z as int);
            assert(nx as int == n.x as int && ny as int == n.y as int && nz as int == n.z as int);
        }
        let rx: i64 = if ix > 3000 {
            3000
        } else if ix < -3000 {
            -3000
        } else {
            ix
        };
        let ry: i64 = if iy > 3000 {
            3000
        } else if iy < -3000 {
            -3000
        } else {
            iy
        };
        let rz: i64 = if iz > 3000 {
            3000
        } else if iz < -3000 {
            -3000
        } else {
            iz
        };
        Vec3 { x: rx, y: ry, z: rz }
    }

    /// The repulsion impulse with a freshly drawn horizontal jitter; a zero
    /// draw is nudged to one step so exactly stacked bodies always drift.
    pub fn repulse(pos: Vec3, moved: Vec3, repulsion: i64) -> (r: Vec3)
        requires
            pos.all_abs_at_most(POS_LIMIT as int),
            moved.all_abs_at_most(POS_LIMIT as int),
            0 <= repulsion <= 1_000_000,
        ensures
            -3000 <= r.x <= 3000 && -3000 <= r.y <= 3000 && -3000 <= r.z <= 3000,
            exists|jx: int, jz: int|
                #![auto]
                -10 <= jx <= 9 && jx != 0 && -10 <= jz <= 9 && jz != 0 && r == repulsion_spec(
                    pos,
                    moved,
                    repulsion as int,
                    jx,
                    jz,
                ),
            moved == pos ==> r == (Vec3 { x: 0, y: 0, z: 0 }),
    {
        let jx0: i64 = jitter_step();
        let jz0: i64 = jitter_step();
        let jx: i64 = if jx0 == 0 {
            1
        } else {
            jx0
        };
        let jz: i64 = if jz0 == 0 {
            1
        } else {
            jz0
        };
        let r = PhysicsSystem::repulsion_impulse(pos, moved, repulsion, jx, jz);
        proof {
            assert(-10 <= jx as int <= 9 && jx as int != 0 && -10 <= jz as int <= 9 && jz as int
                != 0 && r == repulsion_spec(
                pos,
                moved,
                repulsion as int,
                jx as int,
                jz as int,
            ));
        }
        r
    }
}

/// Relies on fastrand::i32: a sample from the given range; nothing is assumed
/// of it beyond the range's own bounds.
#[verifier::external_body]
fn jitter_step() -> (r: i64)
    ensures
        -10 <= r <= 9,
{
    fastrand::i32(-10..10) as i64
}

/// The square root of a positive squared length is positive and fits well
/// under the coordinate bounds.
proof fn lemma_norm_bounds(d: Vec3, len: int, lensq: int)
    requires
        lensq == d.mag_sq(),
        lensq >= 1,
        len * len <= lensq,
        (len + 1) * (len + 1) > lensq,
        len >= 0,
        d.all_abs_at_most(2 * POS_LIMIT as int),
    ensures
        1 <= len <= 4_000_000_000_000,
{
    assert(1 <= len && len <= 4_000_000_000_000) by (nonlinear_arith)
        requires
            len >= 0,
            len * len <= lensq,
            (len + 1) * (len + 1) > lensq,
            lensq >= 1,
            lensq == d.mag_sq(),
            d.all_abs_at_most(2_000_000_000_000),
    ;
}

/// Each component of the separation divided by its length is a unit fraction:
/// at most one in fixed point.
proof fn lemma_unit_component(c: int, len: int, lensq: int)
    requires
        len >= 1,
        c * c <= lensq,
        (len + 1) * (len + 1) > lensq,
    ensures
        abs_i(fx_div_spec(c, len)) <= 1000,
{
    assert(abs_i(c) <= len) by (nonlinear_arith)
        requires
            c * c <= lensq,
            (len + 1) * (len + 1) > lensq,
            len >= 1,
    ;
    crate::fx::lemma_fx_div_bound(c, len, len, len);
    assert((len * 1000) / len == 1000) by {
        assert(len * 1000 == 1000 * len) by (nonlinear_arith);
        vstd::arithmetic::div_mod::lemma_div_multiples_vanish(1000, len);
    }
}

} // verus!
