use vstd::prelude::*;

use crate::aabb::Aabb;
use crate::fx::{abs_i, vox_floor, vox_of, FX_ONE};
use crate::registry::Registry;
use crate::vec3::{Vec3, Vec3i};
use crate::voxels::VoxelAccess;

verus! {

/// The largest face coordinate and displacement magnitude a sweep works
/// with; keeps every intermediate sum of the traversal inside `i64`.
pub const SWEEP_LIMIT: i64 = 0x0200_0000_0000_0000;

/// One reported impact: the axis it happened on, and the direction the box
/// was moving there (+1 or -1).
#[derive(Clone, Copy, PartialEq, Eq, Structural, Debug)]
pub struct Hit {
    pub axis: usize,
    pub dir: i32,
}

/// Whether the terrain blocks motion at a voxel: its id resolves to a
/// non-fluid block other than air.
pub open spec fn solid_at<A: VoxelAccess>(
    access: &A,
    registry: Registry,
    vx: int,
    vy: int,
    vz: int,
) -> bool {
    registry.solid_spec(access.voxel_at(vx, vy, vz) as int)
}

/// Whether some solid voxel meets the box's open interior.
pub open spec fn box_hits_solid<A: VoxelAccess>(access: &A, registry: Registry, aabb: Aabb) -> bool {
    exists|vx: int, vy: int, vz: int|
        aabb.overlaps_voxel(vx, vy, vz) && #[trigger] solid_at(access, registry, vx, vy, vz)
}

/// Whether the terrain holds any solid voxel at all. A sweep reports an
/// impact only in a world where this holds.
pub open spec fn some_solid<A: VoxelAccess>(access: &A, registry: Registry) -> bool {
    exists|vx: int, vy: int, vz: int| #[trigger] solid_at(access, registry, vx, vy, vz)
}

/// The surface an impact left the box against: the leading face on `axis`
/// stands exactly on a cell boundary, and the one-voxel slab beyond it holds
/// a solid voxel within the box's projection on the other two axes.
pub open spec fn impact_surface<A: VoxelAccess>(
    access: &A,
    registry: Registry,
    b: Aabb,
    axis: int,
    dir: int,
) -> bool {
    if dir == 1 {
        b.hi(axis) == vox_floor(b.hi(axis)) * FX_ONE && slab_solid_spec(
            access,
            registry,
            b,
            axis,
            vox_floor(b.hi(axis)),
        )
    } else {
        b.lo(axis) == vox_floor(b.lo(axis)) * FX_ONE && slab_solid_spec(
            access,
            registry,
            b,
            axis,
            vox_floor(b.lo(axis)) - 1,
        )
    }
}

/// The surface a free crossing passed: the leading face on `axis` stands
/// exactly on a cell boundary and the one-voxel slab beyond it was found
/// clear of solids within the box's projection.
pub open spec fn cleared_surface<A: VoxelAccess>(
    access: &A,
    registry: Registry,
    b: Aabb,
    axis: int,
    dir: int,
) -> bool {
    if dir == 1 {
        b.hi(axis) == vox_floor(b.hi(axis)) * FX_ONE && !slab_solid_spec(
            access,
            registry,
            b,
            axis,
            vox_floor(b.hi(axis)),
        )
    } else {
        b.lo(axis) == vox_floor(b.lo(axis)) * FX_ONE && !slab_solid_spec(
            access,
            registry,
            b,
            axis,
            vox_floor(b.lo(axis)) - 1,
        )
    }
}

/// How many axes still carry displacement.
pub open spec fn nz_count(d: Vec3) -> int {
    (if d.x != 0 {
        1int
    } else {
        0
    }) + (if d.y != 0 {
        1int
    } else {
        0
    }) + (if d.z != 0 {
        1int
    } else {
        0
    })
}

/// A solid slab anywhere is a solid voxel somewhere.
proof fn lemma_slab_some_solid<A: VoxelAccess>(
    access: &A,
    registry: Registry,
    b: Aabb,
    axis: int,
    vox: int,
)
    requires
        slab_solid_spec(access, registry, b, axis, vox),
    ensures
        some_solid(access, registry),
{
    let (ka, kb) = choose|ka: int, kb: int|
        #![auto]
        vox_floor(b.lo(first_other(axis))) <= ka <= vox_floor(b.hi(first_other(axis)) - 1)
            && vox_floor(b.lo(second_other(axis))) <= kb <= vox_floor(
            b.hi(second_other(axis)) - 1,
        ) && solid_at(
            access,
            registry,
            coord_on(axis, vox, ka, kb, 0),
            coord_on(axis, vox, ka, kb, 1),
            coord_on(axis, vox, ka, kb, 2),
        );
    assert(solid_at(
        access,
        registry,
        coord_on(axis, vox, ka, kb, 0),
        coord_on(axis, vox, ka, kb, 1),
        coord_on(axis, vox, ka, kb, 2),
    ));
}

/// The first of the two axes other than `axis`, in x, y, z order.
pub open spec fn first_other(axis: int) -> int {
    if axis == 0 {
        1
    } else {
        0
    }
}

/// The second of the two axes other than `axis`, in x, y, z order.
pub open spec fn second_other(axis: int) -> int {
    if axis == 2 {
        1
    } else {
        2
    }
}

/// The coordinate on world axis `i` of the voxel whose `axis` coordinate is
/// `vox` and whose other two coordinates are `ka` and `kb` (in axis order).
pub open spec fn coord_on(axis: int, vox: int, ka: int, kb: int, i: int) -> int {
    if i == axis {
        vox
    } else if i == first_other(axis) {
        ka
    } else {
        kb
    }
}

/// Whether the one-voxel-thick slab with coordinate `vox` on `axis` holds a
/// solid voxel within the box's projection on the other two axes.
pub open spec fn slab_solid_spec<A: VoxelAccess>(
    access: &A,
    registry: Registry,
    aabb: Aabb,
    axis: int,
    vox: int,
) -> bool {
    exists|ka: int, kb: int|
        #![auto]
        vox_floor(aabb.lo(first_other(axis))) <= ka <= vox_floor(aabb.hi(first_other(axis)) - 1)
            && vox_floor(aabb.lo(second_other(axis))) <= kb <= vox_floor(
            aabb.hi(second_other(axis)) - 1,
        ) && solid_at(
            access,
            registry,
            coord_on(axis, vox, ka, kb, 0),
            coord_on(axis, vox, ka, kb, 1),
            coord_on(axis, vox, ka, kb, 2),
        )
}

/// A voxel's cell meets the open interval `(lo, hi)` exactly when its index
/// lies between the cells of `lo` and of `hi - 1`.
pub proof fn lemma_voxel_range(k: int, lo: int, hi: int)
    ensures
        ((FX_ONE as int) * k < hi && (FX_ONE as int) * k + FX_ONE > lo) <==> (vox_floor(lo) <= k
            <= vox_floor(hi - 1)),
{
    let f = FX_ONE as int;
    vstd::arithmetic::div_mod::lemma_fundamental_div_mod(lo, f);
    vstd::arithmetic::div_mod::lemma_mod_bound(lo, f);
    vstd::arithmetic::div_mod::lemma_fundamental_div_mod(hi - 1, f);
    vstd::arithmetic::div_mod::lemma_mod_bound(hi - 1, f);
}

/// Scan the slab with coordinate `vox` on `axis`, across the box's projection
/// on the other two axes, for a solid voxel.
#[verifier::loop_isolation(false)]
fn slab_has_solid<A: VoxelAccess>(
    access: &A,
    registry: &Registry,
    aabb: &Aabb,
    axis: usize,
    vox: i64,
) -> (found: bool)
    requires
        access.inv(),
        registry.wf(),
        axis < 3,
        aabb.wf(),
        aabb.within(crate::voxels::COORD_LIMIT as int),
        abs_i(vox as int) <= crate::voxels::COORD_LIMIT as int,
    ensures
        found == slab_solid_spec(access, *registry, *aabb, axis as int, vox as int),
{
    let oa: usize = if axis == 0 {
        1
    } else {
        0
    };
    let ob: usize = if axis == 2 {
        1
    } else {
        2
    };
    let ka_lo: i64 = vox_of(aabb.get_lo(oa));
    let ka_hi: i64 = vox_of(aabb.get_hi(oa) - 1);
    let kb_lo: i64 = vox_of(aabb.get_lo(ob));
    let kb_hi: i64 = vox_of(aabb.get_hi(ob) - 1);
    let ghost axi = axis as int;
    let mut ka: i64 = ka_lo;
    while ka <= ka_hi
        invariant
            access.inv(),
            registry.wf(),
            axis < 3,
            oa == first_other(axi),
            ob == second_other(axi),
            axi == axis as int,
            ka_lo == vox_floor(aabb.lo(oa as int)),
            ka_hi == vox_floor(aabb.hi(oa as int) - 1),
            kb_lo == vox_floor(aabb.lo(ob as int)),
            kb_hi == vox_floor(aabb.hi(ob as int) - 1),
            ka_lo <= ka,
            abs_i(ka_lo as int) <= crate::voxels::COORD_LIMIT as int,
            abs_i(ka_hi as int) <= crate::voxels::COORD_LIMIT as int,
            abs_i(kb_lo as int) <= crate::voxels::COORD_LIMIT as int,
            abs_i(kb_hi as int) <= crate::voxels::COORD_LIMIT as int,
            abs_i(vox as int) <= crate::voxels::COORD_LIMIT as int,
            forall|ia: int, ib: int|
                ka_lo <= ia < ka && kb_lo <= ib <= kb_hi ==> !#[trigger] solid_at(
                    access,
                    *registry,
                    coord_on(axi, vox as int, ia, ib, 0),
                    coord_on(axi, vox as int, ia, ib, 1),
                    coord_on(axi, vox as int, ia, ib, 2),
                ),
        decreases ka_hi - ka + 1,
    {
        let mut kb: i64 = kb_lo;
        while kb <= kb_hi
            invariant
                access.inv(),
                registry.wf(),
                axis < 3,
                oa == first_other(axi),
                ob == second_other(axi),
                axi == axis as int,
                kb_lo <= kb,
                ka_lo <= ka <= ka_hi,
                abs_i(ka as int) <= crate::voxels::COORD_LIMIT as int,
                abs_i(kb_lo as int) <= crate::voxels::COORD_LIMIT as int,
                abs_i(kb_hi as int) <= crate::voxels::COORD_LIMIT as int,
                abs_i(vox as int) <= crate::voxels::COORD_LIMIT as int,
                forall|ib: int|
                    kb_lo <= ib < kb ==> !#[trigger] solid_at(
                        access,
                        *registry,
                        coord_on(axi, vox as int, ka as int, ib, 0),
                        coord_on(axi, vox as int, ka as int, ib, 1),
                        coord_on(axi, vox as int, ka as int, ib, 2),
                    ),
            decreases kb_hi - kb + 1,
        {
            let vx: i64 = if axis == 0 {
                vox
            } else {
                ka
            };
            let vy: i64 = if axis == 1 {
                vox
            } else if axis == 0 {
                ka
            } else {
                kb
            };
            let vz: i64 = if axis == 2 {
                vox
            } else {
                kb
            };
            let id: u32 = access.get_voxel(vx, vy, vz);
            if registry.is_solid(id) {
                proof {
                    assert(solid_at(
                        access,
                        *registry,
                        coord_on(axi, vox as int, ka as int, kb as int, 0),
                        coord_on(axi, vox as int, ka as int, kb as int, 1),
                        coord_on(axi, vox as int, ka as int, kb as int, 2),
                    ));
                }
                return true;
            }
            kb = kb + 1;
        }
        ka = ka + 1;
    }
    false
}

/// Scan the whole box for a solid voxel meeting its interior.
#[verifier::loop_isolation(false)]
pub fn box_has_solid<A: VoxelAccess>(access: &A, registry: &Registry, aabb: &Aabb) -> (found: bool)
    requires
        access.inv(),
        registry.wf(),
        aabb.wf(),
        aabb.within(crate::voxels::COORD_LIMIT as int),
    ensures
        found == box_hits_solid(access, *registry, *aabb),
{
    let kx_lo: i64 = vox_of(aabb.min_x);
    let kx_hi: i64 = vox_of(aabb.max_x - 1);
    let mut kx: i64 = kx_lo;
    while kx <= kx_hi
        invariant
            access.inv(),
            registry.wf(),
            aabb.wf(),
            aabb.within(crate::voxels::COORD_LIMIT as int),
            kx_lo == vox_floor(aabb.lo(0)),
            kx_hi == vox_floor(aabb.hi(0) - 1),
            kx_lo <= kx,
            abs_i(kx_lo as int) <= crate::voxels::COORD_LIMIT as int,
            abs_i(kx_hi as int) <= crate::voxels::COORD_LIMIT as int,
            forall|ix: int|
                kx_lo <= ix < kx ==> !slab_solid_spec(access, *registry, *aabb, 0, ix),
        decreases kx_hi - kx + 1,
    {
        if slab_has_solid(access, registry, aabb, 0, kx) {
            proof {
                let (ka, kb) = choose|ka: int, kb: int|
                    #![auto]
                    vox_floor(aabb.lo(1)) <= ka <= vox_floor(aabb.hi(1) - 1) && vox_floor(
                        aabb.lo(2),
                    ) <= kb <= vox_floor(aabb.hi(2) - 1) && solid_at(
                        access,
                        *registry,
                        coord_on(0, kx as int, ka, kb, 0),
                        coord_on(0, kx as int, ka, kb, 1),
                        coord_on(0, kx as int, ka, kb, 2),
                    );
                lemma_voxel_range(kx as int, aabb.lo(0), aabb.hi(0));
                lemma_voxel_range(ka, aabb.lo(1), aabb.hi(1));
                lemma_voxel_range(kb, aabb.lo(2), aabb.hi(2));
                assert(aabb.overlaps_voxel(kx as int, ka, kb));
            }
            return true;
        }
        kx = kx + 1;
    }
    proof {
        assert forall|vx: int, vy: int, vz: int|
            aabb.overlaps_voxel(vx, vy, vz) implies !solid_at(access, *registry, vx, vy, vz) by {
            lemma_voxel_range(vx, aabb.lo(0), aabb.hi(0));
            lemma_voxel_range(vy, aabb.lo(1), aabb.hi(1));
            lemma_voxel_range(vz, aabb.lo(2), aabb.hi(2));
            assert(!slab_solid_spec(access, *registry, *aabb, 0, vx));
            assert(coord_on(0, vx, vy, vz, 0) == vx && coord_on(0, vx, vy, vz, 1) == vy && coord_on(
                0,
                vx,
                vy,
                vz,
                2,
            ) == vz);
        }
    }
    false
}


/// The leading face's distance to the boundary it will cross next, along the
/// direction of motion on axis `i`; zero when flush against it. `bvox` holds
/// the boundary as a voxel index, so the boundary coordinate is
/// `bvox * FX_ONE`.
pub open spec fn dist_spec(aabb: Aabb, dx: Vec3, bvox: Vec3, i: int) -> int {
    if dx.axis(i) > 0 {
        bvox.axis(i) * FX_ONE - aabb.hi(i)
    } else if dx.axis(i) < 0 {
        aabb.lo(i) - bvox.axis(i) * FX_ONE
    } else {
        0
    }
}

/// How much displacement remains at or beyond the next boundary on axis `i`:
/// the sweep's termination measure.
pub open spec fn axis_measure(aabb: Aabb, dx: Vec3, bvox: Vec3, i: int) -> int {
    if abs_i(dx.axis(i)) > dist_spec(aabb, dx, bvox, i) {
        abs_i(dx.axis(i)) - dist_spec(aabb, dx, bvox, i)
    } else {
        0
    }
}

pub open spec fn sweep_measure(aabb: Aabb, dx: Vec3, bvox: Vec3) -> int {
    axis_measure(aabb, dx, bvox, 0) + axis_measure(aabb, dx, bvox, 1) + axis_measure(
        aabb,
        dx,
        bvox,
        2,
    )
}

/// The boundary state the traversal keeps per axis: with motion toward
/// positive, the first cell boundary at or above the upper face; with motion
/// toward negative, the first at or below the lower face.
pub open spec fn bound_inv(aabb: Aabb, dx: Vec3, bvox: Vec3, i: int) -> bool {
    &&& (dx.axis(i) > 0 ==> aabb.hi(i) <= bvox.axis(i) * FX_ONE <= aabb.hi(i) + FX_ONE)
    &&& (dx.axis(i) < 0 ==> aabb.lo(i) - FX_ONE <= bvox.axis(i) * FX_ONE <= aabb.lo(i))
}

/// Compute the starting boundary (as a voxel index) for one axis.
fn init_bound(aabb: &Aabb, dx: &Vec3, i: usize) -> (b: i64)
    requires
        i < 3,
        aabb.wf(),
        aabb.within(0x1000_0000_0000_0000),
    ensures
        bound_inv(*aabb, *dx, Vec3 { x: b, y: b, z: b }, i as int),
        dx.axis(i as int) == 0 ==> b == 0,
        abs_i(b as int * FX_ONE) <= 0x1000_0000_0000_0000 + 2000,
{
    let d: i64 = dx.get(i);
    if d > 0 {
        let lead: i64 = aabb.get_hi(i);
        let v: i64 = vox_of(lead);
        proof {
            vstd::arithmetic::div_mod::lemma_fundamental_div_mod(lead as int, FX_ONE as int);
            vstd::arithmetic::div_mod::lemma_mod_bound(lead as int, FX_ONE as int);
            lemma_vox_small(lead as int);
        }
        if v * FX_ONE == lead {
            v
        } else {
            v + 1
        }
    } else if d < 0 {
        let lead: i64 = aabb.get_lo(i);
        let v: i64 = vox_of(lead);
        proof {
            vstd::arithmetic::div_mod::lemma_fundamental_div_mod(lead as int, FX_ONE as int);
            vstd::arithmetic::div_mod::lemma_mod_bound(lead as int, FX_ONE as int);
            lemma_vox_small(lead as int);
        }
        v
    } else {
        0
    }
}

/// The cell index of a coordinate is a thousandth of it, give or take a cell.
proof fn lemma_vox_small(a: int)
    ensures
        abs_i(vox_floor(a)) <= abs_i(a) / 1000 + 1,
        abs_i(vox_floor(a) * FX_ONE) <= abs_i(a) + 1000,
{
    vstd::arithmetic::div_mod::lemma_fundamental_div_mod(a, FX_ONE as int);
    vstd::arithmetic::div_mod::lemma_mod_bound(a, FX_ONE as int);
    vstd::arithmetic::div_mod::lemma_fundamental_div_mod(abs_i(a), FX_ONE as int);
    vstd::arithmetic::div_mod::lemma_mod_bound(abs_i(a), FX_ONE as int);
    assert(abs_i(vox_floor(a)) <= abs_i(a) / 1000 + 1 && abs_i(vox_floor(a) * FX_ONE) <= abs_i(a)
        + 1000) by (nonlinear_arith)
        requires
            1000 * vox_floor(a) + a % 1000 == a,
            0 <= a % 1000 < 1000,
            1000 * (abs_i(a) / 1000) + abs_i(a) % 1000 == abs_i(a),
            0 <= abs_i(a) % 1000 < 1000,
            abs_i(a) == if a >= 0 { a } else { -a },
    ;
}

/// Move the box by `s` on one axis and take `s` out of the displacement
/// remaining there.
fn advance_axis(aabb: &mut Aabb, dx: &mut Vec3, j: usize, s: i64)
    requires
        j < 3,
        old(aabb).wf(),
        old(aabb).within(0x2000_0000_0000_0000),
        abs_i(s as int) <= 0x2000_0000_0000_0000,
        abs_i(old(dx).axis(j as int)) <= 0x2000_0000_0000_0000,
        s as int * old(dx).axis(j as int) >= 0,
        abs_i(s as int) <= abs_i(old(dx).axis(j as int)),
    ensures
        final(aabb).wf(),
        j == 0 ==> *final(aabb) == (Aabb {
            min_x: (old(aabb).min_x + s) as i64,
            max_x: (old(aabb).max_x + s) as i64,
            ..*old(aabb)
        }) && *final(dx) == (Vec3 { x: (old(dx).x - s) as i64, ..*old(dx) }),
        j == 1 ==> *final(aabb) == (Aabb {
            min_y: (old(aabb).min_y + s) as i64,
            max_y: (old(aabb).max_y + s) as i64,
            ..*old(aabb)
        }) && *final(dx) == (Vec3 { y: (old(dx).y - s) as i64, ..*old(dx) }),
        j == 2 ==> *final(aabb) == (Aabb {
            min_z: (old(aabb).min_z + s) as i64,
            max_z: (old(aabb).max_z + s) as i64,
            ..*old(aabb)
        }) && *final(dx) == (Vec3 { z: (old(dx).z - s) as i64, ..*old(dx) }),
        final(aabb).lo(j as int) == old(aabb).lo(j as int) + s,
        final(aabb).hi(j as int) == old(aabb).hi(j as int) + s,
        forall|i: int|
            0 <= i < 3 && i != j as int ==> final(aabb).lo(i) == old(aabb).lo(i)
                && final(aabb).hi(i) == old(aabb).hi(i),
        final(dx).axis(j as int) == old(dx).axis(j as int) - s,
        forall|i: int| 0 <= i < 3 && i != j as int ==> final(dx).axis(i) == old(dx).axis(i),
{
    if j == 0 {
        aabb.min_x = aabb.min_x + s;
        aabb.max_x = aabb.max_x + s;
        dx.x = dx.x - s;
    } else if j == 1 {
        aabb.min_y = aabb.min_y + s;
        aabb.max_y = aabb.max_y + s;
        dx.y = dx.y - s;
    } else {
        aabb.min_z = aabb.min_z + s;
        aabb.max_z = aabb.max_z + s;
        dx.z = dx.z - s;
    }
}

/// The magnitude of the step a non-winning axis takes while the winning axis
/// reaches its boundary: `d_w * |dx_j| / |dx_w|`, rounded toward zero.
fn partial_step(d_w: i64, dx_w_mag: i64, dx_j_mag: i64) -> (s: i64)
    requires
        0 <= d_w < dx_w_mag,
        0 <= dx_j_mag <= 0x2000_0000_0000_0000,
    ensures
        0 <= s <= dx_j_mag,
        s as int == (d_w as int * dx_j_mag as int) / (dx_w_mag as int),
{
    proof {
        assert((d_w as int) * (dx_j_mag as int) < 0x8000_0000_0000_0000_0000_0000_0000_0000)
            by (nonlinear_arith)
            requires
                0 <= d_w < 0x8000_0000_0000_0000,
                0 <= dx_j_mag < 0x8000_0000_0000_0000,
        ;
    }
    let num: u128 = (d_w as u128) * (dx_j_mag as u128);
    let q: u128 = num / (dx_w_mag as u128);
    proof {
        assert(num == (d_w as int) * (dx_j_mag as int)) by (nonlinear_arith)
            requires
                num == (d_w as u128) * (dx_j_mag as u128),
                d_w >= 0,
                dx_j_mag >= 0,
        ;
        assert((d_w as int) * (dx_j_mag as int) <= (dx_w_mag as int) * (dx_j_mag as int))
            by (nonlinear_arith)
            requires
                0 <= d_w < dx_w_mag,
                dx_j_mag >= 0,
        ;
        vstd::arithmetic::div_mod::lemma_div_is_ordered(
            (d_w as int) * (dx_j_mag as int),
            (dx_w_mag as int) * (dx_j_mag as int),
            dx_w_mag as int,
        );
        vstd::arithmetic::div_mod::lemma_div_multiples_vanish(dx_j_mag as int, dx_w_mag as int);
        vstd::arithmetic::div_mod::lemma_div_pos_is_pos(num as int, dx_w_mag as int);
    }
    q as i64
}

/// A product of two values of one sign is nonnegative.
proof fn lemma_sign_mul(s: int, d: int)
    requires
        (s >= 0 && d >= 0) || (s <= 0 && d <= 0),
    ensures
        s * d >= 0,
{
    assert(s * d >= 0) by (nonlinear_arith)
        requires
            (s >= 0 && d >= 0) || (s <= 0 && d <= 0),
    ;
}

/// Whether axis `i` reaches its boundary strictly within what remains of the
/// displacement.
pub open spec fn d_cand(aabb: Aabb, dx: Vec3, bvox: Vec3, i: int) -> bool {
    dx.axis(i) != 0 && dist_spec(aabb, dx, bvox, i) < abs_i(dx.axis(i))
}

/// Crossing-time comparisons chain: if `1` crosses no later than `2` and `2`
/// no later than `3`, then `1` crosses no later than `3`.
proof fn lemma_t_trans(d1: int, m1: int, d2: int, m2: int, d3: int, m3: int)
    requires
        m1 > 0,
        m2 > 0,
        m3 > 0,
        d1 >= 0,
        d2 >= 0,
        d3 >= 0,
        d1 * m2 <= d2 * m1,
        d2 * m3 <= d3 * m2,
    ensures
        d1 * m3 <= d3 * m1,
{
    assert(d1 * m3 <= d3 * m1) by (nonlinear_arith)
        requires
            m1 > 0,
            m2 > 0,
            m3 > 0,
            d1 >= 0,
            d2 >= 0,
            d3 >= 0,
            d1 * m2 <= d2 * m1,
            d2 * m3 <= d3 * m2,
    ;
}

/// `floor(d_w * m_j / m_w) <= d_j` whenever the winner crosses no later than
/// axis `j` would (`d_w * m_j <= d_j * m_w`), or `j`'s own boundary is out of
/// reach (`m_j <= d_j`).
proof fn lemma_partial_step_le(d_w: int, m_w: int, m_j: int, d_j: int)
    requires
        0 <= d_w < m_w,
        0 <= m_j,
        0 <= d_j,
        d_w * m_j <= d_j * m_w || m_j <= d_j,
    ensures
        (d_w * m_j) / m_w <= d_j,
{
    vstd::arithmetic::div_mod::lemma_div_pos_is_pos(d_w * m_j, m_w);
    assert(d_w * m_j >= 0) by (nonlinear_arith)
        requires
            d_w >= 0,
            m_j >= 0,
    ;
    if d_w * m_j <= d_j * m_w {
        vstd::arithmetic::div_mod::lemma_div_is_ordered(d_w * m_j, d_j * m_w, m_w);
        vstd::arithmetic::div_mod::lemma_div_multiples_vanish(d_j, m_w);
        assert(d_j * m_w == m_w * d_j) by (nonlinear_arith);
    } else {
        assert(d_w * m_j <= m_w * m_j - m_j) by (nonlinear_arith)
            requires
                0 <= d_w < m_w,
                0 <= m_j,
        ;
        vstd::arithmetic::div_mod::lemma_div_is_ordered(d_w * m_j, m_w * m_j - m_j, m_w);
        if m_j > 0 {
            assert(m_w * m_j - m_j <= m_w * m_j - m_w + m_w - 1) by (nonlinear_arith)
                requires
                    m_j > 0,
                    m_w > 0,
            ;
            assert(m_w * m_j - m_w + m_w - 1 == m_w * (m_j - 1) + (m_w - 1)) by (nonlinear_arith);
            assert((m_w * m_j - m_w + m_w - 1) / m_w == m_j - 1 + (m_w - 1) / m_w) by {
                assert(m_w * m_j - m_w + m_w - 1 == m_w * (m_j - 1) + (m_w - 1));
                vstd::arithmetic::div_mod::lemma_hoist_over_denominator(
                    m_w - 1,
                    m_j - 1,
                    m_w as nat,
                );
            }
            assert((m_w - 1) / m_w == 0) by {
                vstd::arithmetic::div_mod::lemma_basic_div(m_w - 1, m_w);
            }
            vstd::arithmetic::div_mod::lemma_div_is_ordered(
                m_w * m_j - m_j,
                m_w * m_j - m_w + m_w - 1,
                m_w,
            );
        }
    }
}

/// The distance from the leading face on `i` to its next boundary.
fn dist_on(aabb: &Aabb, dx: &Vec3, bvox: &Vec3, i: usize) -> (d: i64)
    requires
        i < 3,
        aabb.within(0x2000_0000_0000_0000),
        abs_i(bvox.axis(i as int) * FX_ONE) <= 0x2000_0000_0000_0000,
        bound_inv(*aabb, *dx, *bvox, i as int),
    ensures
        d == dist_spec(*aabb, *dx, *bvox, i as int),
        d >= 0,
{
    let v: i64 = dx.get(i);
    if v > 0 {
        bvox.get(i) * FX_ONE - aabb.get_hi(i)
    } else if v < 0 {
        aabb.get_lo(i) - bvox.get(i) * FX_ONE
    } else {
        0
    }
}

/// The magnitude of the displacement remaining on `i`.
fn mag_on(dx: &Vec3, i: usize) -> (m: i64)
    requires
        i < 3,
        abs_i(dx.axis(i as int)) <= 0x2000_0000_0000_0000,
    ensures
        m == abs_i(dx.axis(i as int)),
{
    let v: i64 = dx.get(i);
    if v >= 0 {
        v
    } else {
        -v
    }
}

/// Whether the crossing at distance `da` of an axis with remaining magnitude
/// `ma` happens strictly earlier than that at `db` of one with `mb`.
fn t_less(da: i64, ma: i64, db: i64, mb: i64) -> (r: bool)
    requires
        0 <= da,
        0 <= db,
        0 < ma,
        0 < mb,
    ensures
        r == ((da as int) * (mb as int) < (db as int) * (ma as int)),
{
    proof {
        assert((da as int) * (mb as int) < 0x8000_0000_0000_0000_0000_0000_0000_0000 && (
        db as int) * (ma as int) < 0x8000_0000_0000_0000_0000_0000_0000_0000 && (da as u128) * (
        mb as u128) == (da as int) * (mb as int) && (db as u128) * (ma as u128) == (db as int) * (
        ma as int)) by (nonlinear_arith)
            requires
                0 <= da < 0x8000_0000_0000_0000,
                0 <= db < 0x8000_0000_0000_0000,
                0 < ma < 0x8000_0000_0000_0000,
                0 < mb < 0x8000_0000_0000_0000,
        ;
    }
    (da as u128) * (mb as u128) < (db as u128) * (ma as u128)
}

/// Per-axis bookkeeping the traversal preserves: box size, conservation of
/// face-plus-remaining-displacement, and monotone consumption of `dx`.
pub open spec fn conserve_inv(ob: Aabb, od: Vec3, b: Aabb, d: Vec3, i: int) -> bool {
    &&& b.hi(i) - b.lo(i) == ob.hi(i) - ob.lo(i)
    &&& b.lo(i) + d.axis(i) == ob.lo(i) + od.axis(i)
    &&& (od.axis(i) >= 0 ==> 0 <= d.axis(i) <= od.axis(i))
    &&& (od.axis(i) <= 0 ==> od.axis(i) <= d.axis(i) <= 0)
}

/// Advance one axis to the instant the winning axis reaches its boundary.
/// The winner (`to_bound`) lands flush on its boundary; any other moving axis
/// steps by its proportional share, rounded toward zero, which keeps its own
/// boundary unreached.
fn advance_one(aabb: &mut Aabb, dx: &mut Vec3, bvox: &Vec3, j: usize, dw: i64, mw: i64, to_bound: bool)
    requires
        j < 3,
        old(aabb).wf(),
        old(aabb).within(0x2000_0000_0000_0000),
        abs_i(old(dx).axis(j as int)) <= 0x2000_0000_0000_0000,
        abs_i(bvox.axis(j as int) * FX_ONE) <= 0x2000_0000_0000_0000,
        bound_inv(*old(aabb), *old(dx), *bvox, j as int),
        0 <= dw < mw,
        mw <= 0x2000_0000_0000_0000,
        to_bound ==> dist_spec(*old(aabb), *old(dx), *bvox, j as int) == dw && mw == abs_i(
            old(dx).axis(j as int),
        ),
        !to_bound && old(dx).axis(j as int) != 0 ==> (dw as int) * abs_i(old(dx).axis(j as int))
            <= dist_spec(*old(aabb), *old(dx), *bvox, j as int) * (mw as int) || abs_i(
            old(dx).axis(j as int),
        ) <= dist_spec(*old(aabb), *old(dx), *bvox, j as int),
    ensures
        final(aabb).wf(),
        conserve_inv(*old(aabb), *old(dx), *final(aabb), *final(dx), j as int),
        forall|i: int|
            0 <= i < 3 && i != j as int ==> final(aabb).lo(i) == old(aabb).lo(i)
                && final(aabb).hi(i) == old(aabb).hi(i) && final(dx).axis(i) == old(dx).axis(i),
        bound_inv(*final(aabb), *final(dx), *bvox, j as int),
        axis_measure(*final(aabb), *final(dx), *bvox, j as int) == axis_measure(
            *old(aabb),
            *old(dx),
            *bvox,
            j as int,
        ),
        to_bound ==> dist_spec(*final(aabb), *final(dx), *bvox, j as int) == 0,
        to_bound ==> final(dx).axis(j as int) != 0,
        old(dx).axis(j as int) > 0 ==> final(dx).axis(j as int) >= 0,
        old(dx).axis(j as int) >= 0 ==> final(dx).axis(j as int) >= 0,
        old(dx).axis(j as int) <= 0 ==> final(dx).axis(j as int) <= 0,
        to_bound && old(dx).axis(j as int) > 0 ==> final(dx).axis(j as int) > 0,
        to_bound && old(dx).axis(j as int) < 0 ==> final(dx).axis(j as int) < 0,
{
    let mj: i64 = mag_on(dx, j);
    if to_bound {
        let s: i64 = if dx.get(j) > 0 {
            dw
        } else {
            -dw
        };
        proof {
            lemma_sign_mul(s as int, dx.axis(j as int));
        }
        advance_axis(aabb, dx, j, s);
    } else if mj != 0 {
        let dj: i64 = dist_on(aabb, dx, bvox, j);
        let smag: i64 = partial_step(dw, mw, mj);
        proof {
            lemma_partial_step_le(dw as int, mw as int, mj as int, dj as int);
        }
        let s: i64 = if dx.get(j) > 0 {
            smag
        } else {
            -smag
        };
        proof {
            lemma_sign_mul(s as int, dx.axis(j as int));
        }
        advance_axis(aabb, dx, j, s);
    }
}

/// Pick the axis whose next boundary crossing comes first among the
/// candidates, preferring x, then z, then y on ties.
fn pick_winner(
    d0: i64,
    d1: i64,
    d2: i64,
    m0: i64,
    m1: i64,
    m2: i64,
    c0: bool,
    c1: bool,
    c2: bool,
) -> (r: (usize, i64, i64))
    requires
        c0 || c1 || c2,
        d0 >= 0 && d1 >= 0 && d2 >= 0,
        m0 >= 0 && m1 >= 0 && m2 >= 0,
        c0 == (m0 != 0 && d0 < m0),
        c1 == (m1 != 0 && d1 < m1),
        c2 == (m2 != 0 && d2 < m2),
    ensures
        r.0 < 3,
        r.0 == 0 ==> c0 && r.1 == d0 && r.2 == m0,
        r.0 == 1 ==> c1 && r.1 == d1 && r.2 == m1,
        r.0 == 2 ==> c2 && r.1 == d2 && r.2 == m2,
        c0 ==> (r.1 as int) * (m0 as int) <= (d0 as int) * (r.2 as int),
        c1 ==> (r.1 as int) * (m1 as int) <= (d1 as int) * (r.2 as int),
        c2 ==> (r.1 as int) * (m2 as int) <= (d2 as int) * (r.2 as int),
{
    let mut w: usize = 0;
    let mut dw: i64 = d0;
    let mut mw: i64 = m0;
    if c0 {
        if c2 && t_less(d2, m2, dw, mw) {
            w = 2;
            dw = d2;
            mw = m2;
        }
    } else {
        if c2 {
            w = 2;
            dw = d2;
            mw = m2;
        } else {
            w = 1;
            dw = d1;
            mw = m1;
        }
    }
    if c1 && w != 1 && t_less(d1, m1, dw, mw) {
        w = 1;
        dw = d1;
        mw = m1;
    }
    proof {
        if w == 1 && c0 && c2 {
            if d1 * m0 <= d0 * m1 && d0 * m2 <= d2 * m0 {
                lemma_t_trans(d1 as int, m1 as int, d0 as int, m0 as int, d2 as int, m2 as int);
            }
            if d1 * m2 <= d2 * m1 && d2 * m0 <= d0 * m2 {
                lemma_t_trans(d1 as int, m1 as int, d2 as int, m2 as int, d0 as int, m0 as int);
            }
        }
    }
    (w, dw, mw)
}

/// Move every axis to the instant the winning axis `w` reaches its boundary.
#[verifier::rlimit(100)]
fn advance_all(
    aabb: &mut Aabb,
    dx: &mut Vec3,
    bvox: &Vec3,
    w: usize,
    dw: i64,
    mw: i64,
    ds: Ghost<(i64, i64, i64)>,
    ms: Ghost<(i64, i64, i64)>,
)
    requires
        w < 3,
        old(aabb).wf(),
        old(aabb).within(0x1000_0000_0000_0000),
        old(dx).all_abs_at_most(0x1000_0000_0000_0000),
        bound_inv(*old(aabb), *old(dx), *bvox, 0),
        bound_inv(*old(aabb), *old(dx), *bvox, 1),
        bound_inv(*old(aabb), *old(dx), *bvox, 2),
        abs_i(bvox.axis(0) * FX_ONE) <= 0x1000_0000_0000_0000,
        abs_i(bvox.axis(1) * FX_ONE) <= 0x1000_0000_0000_0000,
        abs_i(bvox.axis(2) * FX_ONE) <= 0x1000_0000_0000_0000,
        ds@.0 == dist_spec(*old(aabb), *old(dx), *bvox, 0),
        ds@.1 == dist_spec(*old(aabb), *old(dx), *bvox, 1),
        ds@.2 == dist_spec(*old(aabb), *old(dx), *bvox, 2),
        ms@.0 == abs_i(old(dx).axis(0)),
        ms@.1 == abs_i(old(dx).axis(1)),
        ms@.2 == abs_i(old(dx).axis(2)),
        dw == dist_spec(*old(aabb), *old(dx), *bvox, w as int),
        mw == abs_i(old(dx).axis(w as int)),
        0 <= dw < mw,
        ms@.0 != 0 && ds@.0 < ms@.0 ==> dw as int * (ms@.0 as int) <= ds@.0 as int * (mw as int),
        ms@.1 != 0 && ds@.1 < ms@.1 ==> dw as int * (ms@.1 as int) <= ds@.1 as int * (mw as int),
        ms@.2 != 0 && ds@.2 < ms@.2 ==> dw as int * (ms@.2 as int) <= ds@.2 as int * (mw as int),
    ensures
        final(aabb).wf(),
        conserve_inv(*old(aabb), *old(dx), *final(aabb), *final(dx), 0),
        conserve_inv(*old(aabb), *old(dx), *final(aabb), *final(dx), 1),
        conserve_inv(*old(aabb), *old(dx), *final(aabb), *final(dx), 2),
        bound_inv(*final(aabb), *final(dx), *bvox, 0),
        bound_inv(*final(aabb), *final(dx), *bvox, 1),
        bound_inv(*final(aabb), *final(dx), *bvox, 2),
        axis_measure(*final(aabb), *final(dx), *bvox, 0) == axis_measure(
            *old(aabb),
            *old(dx),
            *bvox,
            0,
        ),
        axis_measure(*final(aabb), *final(dx), *bvox, 1) == axis_measure(
            *old(aabb),
            *old(dx),
            *bvox,
            1,
        ),
        axis_measure(*final(aabb), *final(dx), *bvox, 2) == axis_measure(
            *old(aabb),
            *old(dx),
            *bvox,
            2,
        ),
        dist_spec(*final(aabb), *final(dx), *bvox, w as int) == 0,
        final(dx).axis(w as int) != 0,
        old(dx).axis(w as int) > 0 ==> final(dx).axis(w as int) > 0,
        old(dx).axis(w as int) < 0 ==> final(dx).axis(w as int) < 0,
{
    advance_one(aabb, dx, bvox, 0, dw, mw, w == 0);
    advance_one(aabb, dx, bvox, 1, dw, mw, w == 1);
    advance_one(aabb, dx, bvox, 2, dw, mw, w == 2);
}

/// What one crossing of the traversal produced: the displacement ran out, an
/// impact, or a free crossing (the entered slab was clear).
pub enum Crossing {
    Done,
    Impact(Hit),
    Free,
}

/// One step of the traversal: move to the next boundary crossing (or to the
/// end of the displacement) and classify it.
#[verifier::rlimit(100)]
fn sweep_cross<A: VoxelAccess>(
    access: &A,
    registry: &Registry,
    aabb: &mut Aabb,
    dx: &mut Vec3,
    bvox: &mut Vec3,
) -> (c: Crossing)
    requires
        access.inv(),
        registry.wf(),
        old(aabb).wf(),
        old(aabb).within(4 * SWEEP_LIMIT as int),
        old(dx).all_abs_at_most(4 * SWEEP_LIMIT as int),
        bound_inv(*old(aabb), *old(dx), *old(bvox), 0),
        bound_inv(*old(aabb), *old(dx), *old(bvox), 1),
        bound_inv(*old(aabb), *old(dx), *old(bvox), 2),
        abs_i(old(bvox).axis(0) * FX_ONE) <= 4 * (SWEEP_LIMIT as int) + 2000,
        abs_i(old(bvox).axis(1) * FX_ONE) <= 4 * (SWEEP_LIMIT as int) + 2000,
        abs_i(old(bvox).axis(2) * FX_ONE) <= 4 * (SWEEP_LIMIT as int) + 2000,
    ensures
        final(aabb).wf(),
        conserve_inv(*old(aabb), *old(dx), *final(aabb), *final(dx), 0),
        conserve_inv(*old(aabb), *old(dx), *final(aabb), *final(dx), 1),
        conserve_inv(*old(aabb), *old(dx), *final(aabb), *final(dx), 2),
        bound_inv(*final(aabb), *final(dx), *final(bvox), 0),
        bound_inv(*final(aabb), *final(dx), *final(bvox), 1),
        bound_inv(*final(aabb), *final(dx), *final(bvox), 2),
        final(bvox).x == old(bvox).x || final(dx).x != 0,
        final(bvox).y == old(bvox).y || final(dx).y != 0,
        final(bvox).z == old(bvox).z || final(dx).z != 0,
        match c {
            Crossing::Done => final(dx).x == 0 && final(dx).y == 0 && final(dx).z == 0,
            Crossing::Impact(h) => h.axis < 3 && (h.dir == 1 || h.dir == -1) && (h.dir == 1 ==> old(
                dx,
            ).axis(h.axis as int) > 0 && final(dx).axis(h.axis as int) > 0) && (h.dir == -1 ==> old(
                dx,
            ).axis(h.axis as int) < 0 && final(dx).axis(h.axis as int) < 0) && impact_surface(
                access,
                *registry,
                *final(aabb),
                h.axis as int,
                h.dir as int,
            ) && some_solid(access, *registry),
            Crossing::Free => sweep_measure(*final(aabb), *final(dx), *final(bvox))
                < sweep_measure(*old(aabb), *old(dx), *old(bvox)) && (exists|ax: int, dr: int|
                0 <= ax < 3 && (dr == 1 || dr == -1) && #[trigger] cleared_surface(
                    access,
                    *registry,
                    *final(aabb),
                    ax,
                    dr,
                )),
        },
{
    let d0: i64 = dist_on(aabb, dx, bvox, 0);
    let d1: i64 = dist_on(aabb, dx, bvox, 1);
    let d2: i64 = dist_on(aabb, dx, bvox, 2);
    let m0: i64 = mag_on(dx, 0);
    let m1: i64 = mag_on(dx, 1);
    let m2: i64 = mag_on(dx, 2);
    let c0: bool = m0 != 0 && d0 < m0;
    let c1: bool = m1 != 0 && d1 < m1;
    let c2: bool = m2 != 0 && d2 < m2;
    if !c0 && !c1 && !c2 {
        // no boundary is reached within what remains: move it all
        let sx: i64 = dx.get(0);
        proof {
            lemma_sign_mul(sx as int, dx.axis(0));
        }
        advance_axis(aabb, dx, 0, sx);
        let sy: i64 = dx.get(1);
        proof {
            lemma_sign_mul(sy as int, dx.axis(1));
        }
        advance_axis(aabb, dx, 1, sy);
        let sz: i64 = dx.get(2);
        proof {
            lemma_sign_mul(sz as int, dx.axis(2));
        }
        advance_axis(aabb, dx, 2, sz);
        return Crossing::Done;
    }
    let (w, dw, mw) = pick_winner(d0, d1, d2, m0, m1, m2, c0, c1, c2);
    let dir: i32 = if dx.get(w) > 0 {
        1
    } else {
        -1
    };
    advance_all(
        aabb,
        dx,
        bvox,
        w,
        dw,
        mw,
        Ghost((d0 as i64, d1 as i64, d2 as i64)),
        Ghost((m0 as i64, m1 as i64, m2 as i64)),
    );
    // the winning face is flush against its boundary: check the slab it is
    // about to enter
    let vox: i64 = if dir == 1 {
        bvox.get(w)
    } else {
        bvox.get(w) - 1
    };
    if slab_has_solid(access, registry, aabb, w, vox) {
        proof {
            vstd::arithmetic::div_mod::lemma_div_multiples_vanish(bvox.axis(w as int), FX_ONE as int);
            assert((FX_ONE as int) * bvox.axis(w as int) == bvox.axis(w as int) * (FX_ONE as int))
                by (nonlinear_arith);
            lemma_slab_some_solid(access, *registry, *aabb, w as int, vox as int);
        }
        return Crossing::Impact(Hit { axis: w, dir });
    }
    // free crossing: the slab is clear, move the boundary one cell on
    proof {
        vstd::arithmetic::div_mod::lemma_div_multiples_vanish(bvox.axis(w as int), FX_ONE as int);
        assert((FX_ONE as int) * bvox.axis(w as int) == bvox.axis(w as int) * (FX_ONE as int))
            by (nonlinear_arith);
        assert(cleared_surface(access, *registry, *aabb, w as int, dir as int));
    }
    let bw: i64 = bvox.get(w);
    let step: i64 = if dir == 1 {
        1
    } else {
        -1
    };
    bvox.set_axis(w, bw + step);
    Crossing::Free
}

/// Advance the box along the remaining displacement, crossing cell boundaries
/// in time order (ties broken x, then z, then y), until a crossing would enter
/// a slab holding a solid voxel -- reported as a `Hit`, with the box flush
/// against that slab -- or until the displacement is used up (`None`). What
/// the box moves is taken out of `dx` axis by axis, so a face coordinate plus
/// the displacement remaining on its axis is conserved.
#[verifier::rlimit(100)]
pub fn sweep_step<A: VoxelAccess>(
    access: &A,
    registry: &Registry,
    aabb: &mut Aabb,
    dx: &mut Vec3,
) -> (hit: Option<Hit>)
    requires
        access.inv(),
        registry.wf(),
        old(aabb).wf(),
        old(aabb).within(3 * SWEEP_LIMIT as int),
        old(dx).all_abs_at_most(SWEEP_LIMIT as int),
    ensures
        final(aabb).wf(),
        final(aabb).within(4 * SWEEP_LIMIT as int),
        conserve_inv(*old(aabb), *old(dx), *final(aabb), *final(dx), 0),
        conserve_inv(*old(aabb), *old(dx), *final(aabb), *final(dx), 1),
        conserve_inv(*old(aabb), *old(dx), *final(aabb), *final(dx), 2),
        match hit {
            None => final(dx).x == 0 && final(dx).y == 0 && final(dx).z == 0,
            Some(h) => h.axis < 3 && (h.dir == 1 || h.dir == -1) && (h.dir == 1 ==> old(dx).axis(
                h.axis as int,
            ) > 0 && final(dx).axis(h.axis as int) > 0) && (h.dir == -1 ==> old(dx).axis(
                h.axis as int,
            ) < 0 && final(dx).axis(h.axis as int) < 0) && impact_surface(
                access,
                *registry,
                *final(aabb),
                h.axis as int,
                h.dir as int,
            ) && some_solid(access, *registry),
        },
{
    let mut bvox = Vec3::zero();
    let b0: i64 = init_bound(aabb, dx, 0);
    let b1: i64 = init_bound(aabb, dx, 1);
    let b2: i64 = init_bound(aabb, dx, 2);
    bvox.set_axis(0, b0);
    bvox.set_axis(1, b1);
    bvox.set_axis(2, b2);
    loop
        invariant
            access.inv(),
            registry.wf(),
            old(aabb).wf(),
            old(aabb).within(3 * SWEEP_LIMIT as int),
            old(dx).all_abs_at_most(SWEEP_LIMIT as int),
            aabb.wf(),
            aabb.within(4 * SWEEP_LIMIT as int),
            dx.all_abs_at_most(SWEEP_LIMIT as int),
            conserve_inv(*old(aabb), *old(dx), *aabb, *dx, 0),
            conserve_inv(*old(aabb), *old(dx), *aabb, *dx, 1),
            conserve_inv(*old(aabb), *old(dx), *aabb, *dx, 2),
            bound_inv(*aabb, *dx, bvox, 0),
            bound_inv(*aabb, *dx, bvox, 1),
            bound_inv(*aabb, *dx, bvox, 2),
            abs_i(bvox.axis(0) * FX_ONE) <= 4 * (SWEEP_LIMIT as int) + 2000,
            abs_i(bvox.axis(1) * FX_ONE) <= 4 * (SWEEP_LIMIT as int) + 2000,
            abs_i(bvox.axis(2) * FX_ONE) <= 4 * (SWEEP_LIMIT as int) + 2000,
        decreases sweep_measure(*aabb, *dx, bvox),
    {
        let ghost pre_box = *aabb;
        let ghost pre_dx = *dx;
        match sweep_cross(access, registry, aabb, dx, &mut bvox) {
            Crossing::Done => {
                return None;
            },
            Crossing::Impact(h) => {
                return Some(h);
            },
            Crossing::Free => {
            },
        }
    }
}


/// The box-and-displacement relation each sweeping mode maintains, stated
/// against the values the caller handed in: the box keeps its size, never
/// moves against or beyond the requested displacement, and the remainder
/// shrinks toward zero.
pub open spec fn drive_inv(ob: Aabb, od: Vec3, b: Aabb, d: Vec3, i: int) -> bool {
    &&& b.hi(i) - b.lo(i) == ob.hi(i) - ob.lo(i)
    &&& (od.axis(i) >= 0 ==> 0 <= d.axis(i) <= od.axis(i) && ob.lo(i) <= b.lo(i) && b.lo(i)
        + d.axis(i) <= ob.lo(i) + od.axis(i))
    &&& (od.axis(i) <= 0 ==> od.axis(i) <= d.axis(i) <= 0 && b.lo(i) <= ob.lo(i) && b.lo(i)
        + d.axis(i) >= ob.lo(i) + od.axis(i))
}

/// Sweep the box along `dx` and resolve every impact: the contact direction
/// is recorded on the hit axis in `resting` and motion there stops (that
/// component of `dx` is zeroed), while the other axes carry on. At most
/// `max_iters` impacts are processed; their count is returned.
#[verifier::rlimit(100)]
pub fn sweep_collide<A: VoxelAccess>(
    access: &A,
    registry: &Registry,
    aabb: &mut Aabb,
    dx: &mut Vec3,
    resting: &mut Vec3i,
    max_iters: u32,
) -> (hits: u32)
    requires
        access.inv(),
        registry.wf(),
        old(aabb).wf(),
        old(aabb).within(2 * SWEEP_LIMIT as int),
        old(dx).all_abs_at_most(SWEEP_LIMIT as int),
    ensures
        hits <= max_iters,
        hits <= 3,
        final(aabb).wf(),
        final(aabb).within(3 * SWEEP_LIMIT as int),
        drive_inv(*old(aabb), *old(dx), *final(aabb), *final(dx), 0),
        drive_inv(*old(aabb), *old(dx), *final(aabb), *final(dx), 1),
        drive_inv(*old(aabb), *old(dx), *final(aabb), *final(dx), 2),
        forall|i: int|
            0 <= i < 3 ==> (#[trigger] final(resting).axis(i) == 0 || final(resting).axis(i) == 1
                || final(resting).axis(i) == -1),
        forall|i: int| 0 <= i < 3 && #[trigger] final(resting).axis(i) == 1 ==> old(dx).axis(i) > 0,
        forall|i: int|
            0 <= i < 3 && #[trigger] final(resting).axis(i) == -1 ==> old(dx).axis(i) < 0,
        forall|i: int|
            0 <= i < 3 && #[trigger] final(resting).axis(i) != 0 ==> final(dx).axis(i) == 0,
        hits < max_iters ==> (forall|i: int|
            0 <= i < 3 && #[trigger] final(resting).axis(i) == 0 ==> final(aabb).lo(i) == old(
                aabb,
            ).lo(i) + old(dx).axis(i)),
        forall|i: int|
            0 <= i < 3 && #[trigger] final(resting).axis(i) != 0 ==> some_solid(access, *registry),
        forall|i: int|
            0 <= i < 3 && #[trigger] final(resting).axis(i) == 1 ==> final(aabb).hi(i) == vox_floor(
                final(aabb).hi(i),
            ) * FX_ONE,
        forall|i: int|
            0 <= i < 3 && #[trigger] final(resting).axis(i) == -1 ==> final(aabb).lo(i)
                == vox_floor(final(aabb).lo(i)) * FX_ONE,
        forall|i: int|
            0 <= i < 3 && #[trigger] final(resting).axis(i) != 0 ==> (exists|b: Aabb|
                #![auto]
                impact_surface(access, *registry, b, i, final(resting).axis(i))
                    && b.lo(i) == final(aabb).lo(i) && b.hi(i) == final(aabb).hi(i)),
{
    resting.set_axis(0, 0);
    resting.set_axis(1, 0);
    resting.set_axis(2, 0);
    proof {
        assert(resting.axis(0) == resting.x && resting.axis(1) == resting.y && resting.axis(2)
            == resting.z);
    }
    let ghost mut wit_x: Aabb = *aabb;
    let ghost mut wit_y: Aabb = *aabb;
    let ghost mut wit_z: Aabb = *aabb;
    let mut hits: u32 = 0;
    loop
        invariant
            access.inv(),
            registry.wf(),
            old(aabb).wf(),
            old(aabb).within(2 * SWEEP_LIMIT as int),
            old(dx).all_abs_at_most(SWEEP_LIMIT as int),
            aabb.wf(),
            aabb.within(3 * SWEEP_LIMIT as int),
            dx.all_abs_at_most(SWEEP_LIMIT as int),
            hits <= max_iters,
            drive_inv(*old(aabb), *old(dx), *aabb, *dx, 0),
            drive_inv(*old(aabb), *old(dx), *aabb, *dx, 1),
            drive_inv(*old(aabb), *old(dx), *aabb, *dx, 2),
            forall|i: int|
                0 <= i < 3 ==> (#[trigger] resting.axis(i) == 0 || resting.axis(i) == 1
                    || resting.axis(i) == -1),
            forall|i: int| 0 <= i < 3 && #[trigger] resting.axis(i) == 1 ==> old(dx).axis(i) > 0,
            forall|i: int| 0 <= i < 3 && #[trigger] resting.axis(i) == -1 ==> old(dx).axis(i) < 0,
            forall|i: int| 0 <= i < 3 && #[trigger] resting.axis(i) != 0 ==> dx.axis(i) == 0,
            hits + nz_count(*dx) <= nz_count(*old(dx)),
            forall|i: int|
                0 <= i < 3 && #[trigger] resting.axis(i) == 0 ==> aabb.lo(i) + dx.axis(i) == old(
                    aabb,
                ).lo(i) + old(dx).axis(i),
            forall|i: int|
                0 <= i < 3 && #[trigger] resting.axis(i) != 0 ==> some_solid(access, *registry),
            forall|i: int|
                0 <= i < 3 && #[trigger] resting.axis(i) == 1 ==> aabb.hi(i) == vox_floor(
                    aabb.hi(i),
                ) * FX_ONE,
            forall|i: int|
                0 <= i < 3 && #[trigger] resting.axis(i) == -1 ==> aabb.lo(i) == vox_floor(
                    aabb.lo(i),
                ) * FX_ONE,
            resting.x != 0 ==> impact_surface(access, *registry, wit_x, 0, resting.x as int)
                && wit_x.lo(0) == aabb.lo(0) && wit_x.hi(0) == aabb.hi(0),
            resting.y != 0 ==> impact_surface(access, *registry, wit_y, 1, resting.y as int)
                && wit_y.lo(1) == aabb.lo(1) && wit_y.hi(1) == aabb.hi(1),
            resting.z != 0 ==> impact_surface(access, *registry, wit_z, 2, resting.z as int)
                && wit_z.lo(2) == aabb.lo(2) && wit_z.hi(2) == aabb.hi(2),
        decreases max_iters - hits,
    {
        if hits == max_iters {
            proof {
                lemma_collide_witnesses(
                    access, *registry, *aabb, *resting, wit_x, wit_y, wit_z,
                );
            }
            return hits;
        }
        let ghost pre_box = *aabb;
        let ghost pre_dx = *dx;
        match sweep_step(access, registry, aabb, dx) {
            None => {
                proof {
                    assert(resting.axis(0) == resting.x && resting.axis(1) == resting.y
                        && resting.axis(2) == resting.z);
                    assert(pre_dx.axis(0) == pre_dx.x && pre_dx.axis(1) == pre_dx.y
                        && pre_dx.axis(2) == pre_dx.z);
                    if resting.x != 0 {
                        assert(aabb.lo(0) == pre_box.lo(0) && aabb.hi(0) == pre_box.hi(0));
                    }
                    if resting.y != 0 {
                        assert(aabb.lo(1) == pre_box.lo(1) && aabb.hi(1) == pre_box.hi(1));
                    }
                    if resting.z != 0 {
                        assert(aabb.lo(2) == pre_box.lo(2) && aabb.hi(2) == pre_box.hi(2));
                    }
                    lemma_collide_witnesses(
                        access, *registry, *aabb, *resting, wit_x, wit_y, wit_z,
                    );
                }
                return hits;
            },
            Some(h) => {
                resting.set_axis(h.axis, h.dir);
                dx.set_axis(h.axis, 0);
                proof {
                    assert(resting.axis(0) == resting.x && resting.axis(1) == resting.y
                        && resting.axis(2) == resting.z);
                    assert(dx.axis(0) == dx.x && dx.axis(1) == dx.y && dx.axis(2) == dx.z);
                    if h.axis == 0 {
                        wit_x = *aabb;
                    } else if h.axis == 1 {
                        wit_y = *aabb;
                    } else {
                        wit_z = *aabb;
                    }
                }
                hits = hits + 1;
            },
        }
    }
}

/// Package the per-axis impact witnesses as the existential the contract
/// speaks of.
proof fn lemma_collide_witnesses<A: VoxelAccess>(
    access: &A,
    registry: Registry,
    aabb: Aabb,
    resting: Vec3i,
    wit_x: Aabb,
    wit_y: Aabb,
    wit_z: Aabb,
)
    requires
        resting.x != 0 ==> impact_surface(access, registry, wit_x, 0, resting.x as int)
            && wit_x.lo(0) == aabb.lo(0) && wit_x.hi(0) == aabb.hi(0),
        resting.y != 0 ==> impact_surface(access, registry, wit_y, 1, resting.y as int)
            && wit_y.lo(1) == aabb.lo(1) && wit_y.hi(1) == aabb.hi(1),
        resting.z != 0 ==> impact_surface(access, registry, wit_z, 2, resting.z as int)
            && wit_z.lo(2) == aabb.lo(2) && wit_z.hi(2) == aabb.hi(2),
    ensures
        forall|i: int|
            0 <= i < 3 && #[trigger] resting.axis(i) != 0 ==> (exists|b: Aabb|
                #![auto]
                impact_surface(access, registry, b, i, resting.axis(i)) && b.lo(i) == aabb.lo(i)
                    && b.hi(i) == aabb.hi(i)),
{
    assert forall|i: int| 0 <= i < 3 && #[trigger] resting.axis(i) != 0 implies (exists|b: Aabb|
        #![auto]
        impact_surface(access, registry, b, i, resting.axis(i)) && b.lo(i) == aabb.lo(i) && b.hi(
            i,
        ) == aabb.hi(i)) by {
        if i == 0 {
            assert(impact_surface(access, registry, wit_x, 0, resting.axis(0)) && wit_x.lo(0)
                == aabb.lo(0) && wit_x.hi(0) == aabb.hi(0));
        } else if i == 1 {
            assert(impact_surface(access, registry, wit_y, 1, resting.axis(1)) && wit_y.lo(1)
                == aabb.lo(1) && wit_y.hi(1) == aabb.hi(1));
        } else {
            assert(impact_surface(access, registry, wit_z, 2, resting.axis(2)) && wit_z.lo(2)
                == aabb.lo(2) && wit_z.hi(2) == aabb.hi(2));
        }
    }
}

/// Sweep the box along `dx` toward a target, sliding over vertical impacts
/// (the y component is dropped and motion continues) and stopping at the
/// first impact on x or z: when none comes, the horizontal displacement is
/// consumed in full (a vertical impact can happen at most once, so the
/// iteration budget never runs out with two or more).
pub fn sweep_slide_xz<A: VoxelAccess>(
    access: &A,
    registry: &Registry,
    aabb: &mut Aabb,
    dx: &mut Vec3,
    max_iters: u32,
) -> (hit: Option<Hit>)
    requires
        access.inv(),
        registry.wf(),
        old(aabb).wf(),
        old(aabb).within(2 * SWEEP_LIMIT as int),
        old(dx).all_abs_at_most(SWEEP_LIMIT as int),
        max_iters >= 2,
    ensures
        final(aabb).wf(),
        final(aabb).within(3 * SWEEP_LIMIT as int),
        drive_inv(*old(aabb), *old(dx), *final(aabb), *final(dx), 0),
        drive_inv(*old(aabb), *old(dx), *final(aabb), *final(dx), 1),
        drive_inv(*old(aabb), *old(dx), *final(aabb), *final(dx), 2),
        match hit {
            Some(h) => h.axis < 3 && h.axis != 1 && (h.dir == 1 || h.dir == -1) && impact_surface(
                access,
                *registry,
                *final(aabb),
                h.axis as int,
                h.dir as int,
            ) && some_solid(access, *registry),
            None => final(aabb).lo(0) == old(aabb).lo(0) + old(dx).x && final(aabb).lo(2) == old(
                aabb,
            ).lo(2) + old(dx).z,
        },
{
    let mut iters: u32 = 0;
    loop
        invariant
            access.inv(),
            registry.wf(),
            old(aabb).wf(),
            old(aabb).within(2 * SWEEP_LIMIT as int),
            old(dx).all_abs_at_most(SWEEP_LIMIT as int),
            max_iters >= 2,
            aabb.wf(),
            aabb.within(3 * SWEEP_LIMIT as int),
            dx.all_abs_at_most(SWEEP_LIMIT as int),
            iters <= 1,
            iters == 1 ==> dx.y == 0,
            aabb.lo(0) + dx.x == old(aabb).lo(0) + old(dx).x,
            aabb.lo(2) + dx.z == old(aabb).lo(2) + old(dx).z,
            drive_inv(*old(aabb), *old(dx), *aabb, *dx, 0),
            drive_inv(*old(aabb), *old(dx), *aabb, *dx, 1),
            drive_inv(*old(aabb), *old(dx), *aabb, *dx, 2),
        decreases max_iters - iters,
    {
        match sweep_step(access, registry, aabb, dx) {
            None => {
                return None;
            },
            Some(h) => {
                if h.axis == 1 {
                    dx.set_axis(1, 0);
                    iters = iters + 1;
                } else {
                    return Some(h);
                }
            },
        }
    }
}

} // verus!

