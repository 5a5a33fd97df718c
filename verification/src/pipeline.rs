use vstd::prelude::*;

use crate::config::{ChunkCoords, WorldConfig};
use crate::registry::{Registry, AIR};
use crate::voxels::{key_of, Chunk, Chunks, Space};

verus! {

/// What a stage asks to see around the chunk it works on.
#[derive(Clone, Copy, PartialEq, Eq, Structural, Debug)]
pub struct SpaceRequirements {
    pub margin: usize,
    pub needs_voxels: bool,
    pub needs_height_map: bool,
    pub needs_light: bool,
}

/// One step of the chunk generation pipeline. A stage transforms a chunk,
/// optionally reading the terrain around it through a `Space`; it may not
/// move or resize the chunk.
pub trait ChunkStage {
    /// The stage's display name.
    fn name(&self) -> String;

    /// The neighbor context the stage needs, or `None` to work on the chunk
    /// alone.
    fn needs_space(&self) -> Option<SpaceRequirements>;

    /// Transform the chunk.
    fn process(&self, chunk: Chunk, registry: &Registry, config: &WorldConfig, space: Option<
        &Space<'_>,
    >) -> (r: Chunk)
        requires
            chunk.wf(),
            registry.wf(),
            config.wf(),
        ensures
            r.wf(),
            r.cx == chunk.cx && r.cz == chunk.cz,
            r.size == chunk.size && r.max_height == chunk.max_height,
            r.stage == chunk.stage,
    ;
}

/// The topmost non-air voxel of a column at or below `y`, or zero when the
/// whole column is air.
pub open spec fn top_nonair_spec(c: Chunk, x: int, z: int, y: int) -> int
    decreases y + 1,
{
    if y < 0 {
        0
    } else if c.voxel_local(x, y, z) != AIR {
        y
    } else {
        top_nonair_spec(c, x, z, y - 1)
    }
}

/// Whether a chunk's height map is exactly the map its voxels induce.
pub open spec fn height_map_accurate(c: Chunk) -> bool {
    forall|x: int, z: int|
        0 <= x < c.size && 0 <= z < c.size ==> #[trigger] c.height_map[c.col_idx(x, z)]
            == top_nonair_spec(c, x, z, c.max_height - 1)
}

/// The built-in stage that recomputes a chunk's height map from its voxels.
pub struct HeightMapStage;

impl HeightMapStage {
    /// Recompute one column: the height of its topmost non-air voxel.
    fn column_top(chunk: &Chunk, x: usize, z: usize) -> (h: u32)
        requires
            chunk.wf(),
            x < chunk.size,
            z < chunk.size,
        ensures
            h == top_nonair_spec(*chunk, x as int, z as int, chunk.max_height - 1),
    {
        let mut y: usize = chunk.max_height;
        while y > 0
            invariant
                chunk.wf(),
                x < chunk.size,
                z < chunk.size,
                y <= chunk.max_height,
                top_nonair_spec(*chunk, x as int, z as int, chunk.max_height - 1)
                    == top_nonair_spec(*chunk, x as int, z as int, y - 1),
            decreases y,
        {
            let id: u32 = chunk.get_voxel_local(x, y - 1, z);
            if id != AIR {
                return (y - 1) as u32;
            }
            y = y - 1;
        }
        0
    }
}

impl ChunkStage for HeightMapStage {
    fn name(&self) -> String {
        "height-map".to_owned()
    }

    fn needs_space(&self) -> Option<SpaceRequirements> {
        None
    }

    /// Rebuild the height map; the voxels (and everything else) stay as they
    /// are, so the result's height map is exactly the one the voxels induce.
    fn process(&self, chunk: Chunk, registry: &Registry, config: &WorldConfig, space: Option<
        &Space<'_>,
    >) -> (r: Chunk)
        ensures
            r.voxels == chunk.voxels,
            height_map_accurate(r),
    {
        let mut c = chunk;
        let size: usize = c.size;
        let mut x: usize = 0;
        while x < size
            invariant
                c.wf(),
                size == c.size,
                c.voxels == chunk.voxels,
                c.cx == chunk.cx && c.cz == chunk.cz,
                c.size == chunk.size && c.max_height == chunk.max_height,
                c.stage == chunk.stage,
                x <= size,
                forall|xi: int, zi: int|
                    0 <= xi < x && 0 <= zi < c.size ==> #[trigger] c.height_map[c.col_idx(xi, zi)]
                        == top_nonair_spec(c, xi, zi, c.max_height - 1),
            decreases size - x,
        {
            let mut z: usize = 0;
            while z < size
                invariant
                    c.wf(),
                    size == c.size,
                    c.voxels == chunk.voxels,
                    c.cx == chunk.cx && c.cz == chunk.cz,
                    c.size == chunk.size && c.max_height == chunk.max_height,
                    c.stage == chunk.stage,
                    x < size,
                    z <= size,
                    forall|xi: int, zi: int|
                        0 <= xi < x && 0 <= zi < c.size ==> #[trigger] c.height_map[c.col_idx(
                            xi,
                            zi,
                        )] == top_nonair_spec(c, xi, zi, c.max_height - 1),
                    forall|zi: int|
                        0 <= zi < z ==> #[trigger] c.height_map[c.col_idx(x as int, zi)]
                            == top_nonair_spec(c, x as int, zi, c.max_height - 1),
                decreases size - z,
            {
                let h: u32 = HeightMapStage::column_top(&c, x, z);
                let ghost c_old = c;
                c.set_height_local(x, z, h);
                proof {
                    assert forall|xi: int, zi: int|
                        0 <= xi < c.size && 0 <= zi < c.size implies #[trigger] top_nonair_spec(
                        c,
                        xi,
                        zi,
                        c.max_height - 1,
                    ) == top_nonair_spec(c_old, xi, zi, c_old.max_height - 1) by {
                        lemma_top_nonair_same(c_old, c, xi, zi, c.max_height - 1);
                    }
                    assert forall|xi: int, zi: int|
                        0 <= xi < c.size && 0 <= zi < c.size && !(xi == x as int && zi
                            == z as int) implies c.height_map[c.col_idx(xi, zi)]
                        == c_old.height_map[c_old.col_idx(xi, zi)] by {
                        lemma_col_idx_injective(c, xi, zi, x as int, z as int);
                    }
                    assert(0 <= c_old.col_idx(x as int, z as int) < c_old.height_map.len())
                        by (nonlinear_arith)
                        requires
                            0 <= x < c_old.size,
                            0 <= z < c_old.size,
                            c_old.height_map.len() == c_old.size * c_old.size,
                    ;
                    assert(c.height_map[c.col_idx(x as int, z as int)] == h);
                }
                z = z + 1;
            }
            x = x + 1;
        }
        c
    }
}

/// Distinct in-range columns use distinct height-map indices.
proof fn lemma_col_idx_injective(c: Chunk, x1: int, z1: int, x2: int, z2: int)
    requires
        c.wf(),
        0 <= x1 < c.size,
        0 <= z1 < c.size,
        0 <= x2 < c.size,
        0 <= z2 < c.size,
        !(x1 == x2 && z1 == z2),
    ensures
        c.col_idx(x1, z1) != c.col_idx(x2, z2),
        0 <= c.col_idx(x1, z1) < c.height_map.len(),
        0 <= c.col_idx(x2, z2) < c.height_map.len(),
{
    assert(x1 * c.size + z1 != x2 * c.size + z2 && 0 <= x1 * c.size + z1 < c.size * c.size && 0
        <= x2 * c.size + z2 < c.size * c.size) by (nonlinear_arith)
        requires
            0 <= x1 < c.size,
            0 <= z1 < c.size,
            0 <= x2 < c.size,
            0 <= z2 < c.size,
            !(x1 == x2 && z1 == z2),
    ;
}

/// Rebuilding the height map is idempotent: a second run reads the same
/// voxels, so it writes the same heights.
pub proof fn lemma_height_map_stage_idempotent(c1: Chunk, c2: Chunk)
    requires
        c1.wf(),
        c2.wf(),
        c1.voxels == c2.voxels,
        c1.size == c2.size,
        c1.max_height == c2.max_height,
        height_map_accurate(c1),
        height_map_accurate(c2),
        c1.height_map.len() == c2.height_map.len(),
    ensures
        c1.height_map@ =~= c2.height_map@,
{
    assert(c1.height_map.len() == c1.size * c1.size);
    assert forall|i: int| 0 <= i < c1.height_map.len() implies c1.height_map[i]
        == c2.height_map[i] by {
        let x = i / (c1.size as int);
        let z = i % (c1.size as int);
        vstd::arithmetic::div_mod::lemma_fundamental_div_mod(i, c1.size as int);
        vstd::arithmetic::div_mod::lemma_mod_bound(i, c1.size as int);
        assert(i == x * (c1.size as int) + z && 0 <= x < c1.size) by (nonlinear_arith)
            requires
                (c1.size as int) * x + z == i,
                0 <= z < c1.size,
                0 <= i < c1.size * c1.size,
                c1.size >= 1,
        ;
        assert(c1.col_idx(x, z) == i);
        assert(c2.col_idx(x, z) == i);
        lemma_top_nonair_same(c1, c2, x, z, c1.max_height - 1);
        assert(c1.height_map[c1.col_idx(x, z)] == top_nonair_spec(c1, x, z, c1.max_height - 1));
        assert(c2.height_map[c2.col_idx(x, z)] == top_nonair_spec(c2, x, z, c2.max_height - 1));
    }
}

/// Chunks with the same voxels agree on every column's top.
proof fn lemma_top_nonair_same(c1: Chunk, c2: Chunk, x: int, z: int, y: int)
    requires
        c1.voxels == c2.voxels,
        c1.size == c2.size,
        c1.max_height == c2.max_height,
    ensures
        top_nonair_spec(c1, x, z, y) == top_nonair_spec(c2, x, z, y),
    decreases y + 1,
{
    if y >= 0 {
        assert(c1.vox_idx(x, y, z) == c2.vox_idx(x, y, z));
        if c1.voxel_local(x, y, z) == AIR {
            lemma_top_nonair_same(c1, c2, x, z, y - 1);
        }
    }
}

/// The built-in stage that fills a chunk with flat layers: a bottom layer,
/// middle filler up to the surface, and a top (surface) layer.
pub struct FlatlandStage {
    pub height: usize,
    pub top: u32,
    pub middle: u32,
    pub bottom: u32,
}

/// The id the flatland stage writes at a height, given the surface height.
pub open spec fn flat_id_spec(s: FlatlandStage, y: int) -> u32 {
    if y == 0 {
        s.bottom
    } else if y + 1 < s.height {
        s.middle
    } else {
        s.top
    }
}

/// How high the stage fills a chunk: its own height, cut at the chunk top.
pub open spec fn flat_limit(s: FlatlandStage, c: Chunk) -> int {
    if s.height < c.max_height {
        s.height as int
    } else {
        c.max_height as int
    }
}

/// One voxel as the flatland stage leaves it: the layer id below the fill
/// height, the original content above it.
pub open spec fn flat_cell(s: FlatlandStage, c0: Chunk, c: Chunk, x: int, y: int, z: int) -> bool {
    c.voxel_local(x, y, z) == (if y < flat_limit(s, c0) {
        flat_id_spec(s, y)
    } else {
        c0.voxel_local(x, y, z)
    })
}

impl ChunkStage for FlatlandStage {
    fn name(&self) -> String {
        "flatland".to_owned()
    }

    fn needs_space(&self) -> Option<SpaceRequirements> {
        None
    }

    /// Fill every column with the configured layers from the chunk floor up
    /// to the stage's height; every voxel above, and the height map, stay as
    /// they were.
    #[verifier::rlimit(100)]
    fn process(&self, chunk: Chunk, registry: &Registry, config: &WorldConfig, space: Option<
        &Space<'_>,
    >) -> (r: Chunk)
        ensures
            r.height_map == chunk.height_map,
            forall|x: int, y: int, z: int|
                0 <= x < chunk.size && 0 <= y < chunk.max_height && 0 <= z < chunk.size
                    ==> #[trigger] flat_cell(*self, chunk, r, x, y, z),
    {
        let mut c = chunk;
        let size: usize = c.size;
        let lim: usize = if self.height < c.max_height {
            self.height
        } else {
            c.max_height
        };
        let mut x: usize = 0;
        while x < size
            invariant
                c.wf(),
                size == c.size,
                lim == flat_limit(*self, chunk),
                lim <= c.max_height,
                c.height_map == chunk.height_map,
                c.cx == chunk.cx && c.cz == chunk.cz,
                c.size == chunk.size && c.max_height == chunk.max_height,
                c.stage == chunk.stage,
                x <= size,
                forall|xi: int, yi: int, zi: int|
                    0 <= xi < x && 0 <= yi < c.max_height && 0 <= zi < c.size
                        ==> #[trigger] flat_cell(*self, chunk, c, xi, yi, zi),
                forall|xi: int, yi: int, zi: int|
                    x as int <= xi < c.size && 0 <= yi < c.max_height && 0 <= zi < c.size
                        ==> #[trigger] c.voxel_local(xi, yi, zi) == chunk.voxel_local(xi, yi, zi),
            decreases size - x,
        {
            let mut z: usize = 0;
            while z < size
                invariant
                    c.wf(),
                    size == c.size,
                    lim == flat_limit(*self, chunk),
                    lim <= c.max_height,
                    c.height_map == chunk.height_map,
                    c.cx == chunk.cx && c.cz == chunk.cz,
                    c.size == chunk.size && c.max_height == chunk.max_height,
                    c.stage == chunk.stage,
                    x < size,
                    z <= size,
                    forall|xi: int, yi: int, zi: int|
                        0 <= xi < c.size && 0 <= yi < c.max_height && 0 <= zi < c.size && (xi
                            < x as int || (xi == x as int && zi < z as int))
                            ==> #[trigger] flat_cell(*self, chunk, c, xi, yi, zi),
                    forall|xi: int, yi: int, zi: int|
                        0 <= xi < c.size && 0 <= yi < c.max_height && 0 <= zi < c.size && (xi
                            > x as int || (xi == x as int && zi >= z as int))
                            ==> #[trigger] c.voxel_local(xi, yi, zi) == chunk.voxel_local(
                            xi,
                            yi,
                            zi,
                        ),
                decreases size - z,
            {
                let mut y: usize = 0;
                while y < lim
                    invariant
                        c.wf(),
                        size == c.size,
                        lim == flat_limit(*self, chunk),
                        lim <= c.max_height,
                        c.height_map == chunk.height_map,
                        c.cx == chunk.cx && c.cz == chunk.cz,
                        c.size == chunk.size && c.max_height == chunk.max_height,
                        c.stage == chunk.stage,
                        x < size,
                        z < size,
                        y <= lim,
                        forall|xi: int, yi: int, zi: int|
                            0 <= xi < c.size && 0 <= yi < c.max_height && 0 <= zi < c.size && (xi
                                < x as int || (xi == x as int && zi < z as int))
                                ==> #[trigger] flat_cell(*self, chunk, c, xi, yi, zi),
                        forall|yi: int|
                            0 <= yi < y ==> #[trigger] c.voxel_local(x as int, yi, z as int)
                                == flat_id_spec(*self, yi),
                        forall|xi: int, yi: int, zi: int|
                            0 <= xi < c.size && 0 <= yi < c.max_height && 0 <= zi < c.size && (xi
                                > x as int || (xi == x as int && zi > z as int) || (xi == x as int
                                && zi == z as int && yi >= y))
                                ==> #[trigger] c.voxel_local(xi, yi, zi) == chunk.voxel_local(
                                xi,
                                yi,
                                zi,
                            ),
                    decreases lim - y,
                {
                    let id: u32 = if y == 0 {
                        self.bottom
                    } else if y + 1 < self.height {
                        self.middle
                    } else {
                        self.top
                    };
                    let ghost c_old = c;
                    c.set_voxel_local(x, y, z, id);
                    proof {
                        c_old.lemma_vox_idx_in_range(x as int, y as int, z as int);
                        assert forall|xi: int, yi: int, zi: int|
                            0 <= xi < c.size && 0 <= yi < c.max_height && 0 <= zi < c.size && !(xi
                                == x as int && yi == y as int && zi == z as int) implies #[trigger] c.voxel_local(
                            xi,
                            yi,
                            zi,
                        ) == c_old.voxel_local(xi, yi, zi) by {
                            c_old.lemma_vox_idx_in_range(xi, yi, zi);
                            if c_old.vox_idx(xi, yi, zi) == c_old.vox_idx(
                                x as int,
                                y as int,
                                z as int,
                            ) {
                                c_old.lemma_vox_idx_injective(
                                    xi,
                                    yi,
                                    zi,
                                    x as int,
                                    y as int,
                                    z as int,
                                );
                            }
                        }
                        assert(c.voxel_local(x as int, y as int, z as int) == id);
                        assert(id == flat_id_spec(*self, y as int));
                        assert forall|xi: int, yi: int, zi: int|
                            0 <= xi < c.size && 0 <= yi < c.max_height && 0 <= zi < c.size && (xi
                                < x as int || (xi == x as int && zi < z as int)) implies #[trigger] flat_cell(
                            *self,
                            chunk,
                            c,
                            xi,
                            yi,
                            zi,
                        ) by {
                            assert(flat_cell(*self, chunk, c_old, xi, yi, zi));
                        }
                    }
                    y = y + 1;
                }
                proof {
                    assert forall|yi: int|
                        0 <= yi < c.max_height implies #[trigger] flat_cell(
                        *self,
                        chunk,
                        c,
                        x as int,
                        yi,
                        z as int,
                    ) by {
                        if yi < lim {
                            assert(c.voxel_local(x as int, yi, z as int) == flat_id_spec(
                                *self,
                                yi,
                            ));
                        }
                    }
                }
                z = z + 1;
            }
            x = x + 1;
        }
        c
    }
}

/// The per-stage metadata the scheduler decides eligibility with.
pub struct Pipeline {
    pub stages: Vec<Option<SpaceRequirements>>,
}

/// Whether every in-bounds neighbor of a chunk exists and has completed the
/// first `k` stages, so a `Space` assembled around the chunk is well-defined.
pub open spec fn neighbor_done(chunks: Chunks, cx: int, cz: int, k: int) -> bool {
    !chunks.in_bounds(cx, cz) || (chunks.map@.contains_key(key_of(cx as i32, cz as i32))
        && chunks.map@[key_of(cx as i32, cz as i32)].stage >= k)
}

pub open spec fn neighbors_done(chunks: Chunks, cx: int, cz: int, k: int) -> bool {
    &&& neighbor_done(chunks, cx - 1, cz - 1, k)
    &&& neighbor_done(chunks, cx - 1, cz, k)
    &&& neighbor_done(chunks, cx - 1, cz + 1, k)
    &&& neighbor_done(chunks, cx, cz - 1, k)
    &&& neighbor_done(chunks, cx, cz + 1, k)
    &&& neighbor_done(chunks, cx + 1, cz - 1, k)
    &&& neighbor_done(chunks, cx + 1, cz, k)
    &&& neighbor_done(chunks, cx + 1, cz + 1, k)
}

/// A chunk is eligible for its next stage when it exists, has stages left,
/// and -- if that stage wants neighbor context -- every in-bounds neighbor
/// has completed the stages before it.
pub open spec fn eligible_spec(p: Pipeline, chunks: Chunks, cx: int, cz: int) -> bool {
    &&& chunks.map@.contains_key(key_of(cx as i32, cz as i32))
    &&& chunks.map@[key_of(cx as i32, cz as i32)].stage < p.stages@.len()
    &&& (p.stages@[chunks.map@[key_of(cx as i32, cz as i32)].stage as int] is Some
        ==> neighbors_done(chunks, cx, cz, chunks.map@[key_of(cx as i32, cz as i32)].stage as int))
}

impl Pipeline {
    pub fn new() -> (r: Pipeline)
        ensures
            r.stages@.len() == 0,
    {
        Pipeline { stages: Vec::new() }
    }

    /// Declare the next stage with its neighbor requirements.
    pub fn add_stage(&mut self, needs: Option<SpaceRequirements>)
        ensures
            final(self).stages@ == old(self).stages@.push(needs),
    {
        self.stages.push(needs);
    }

    /// How many stages the pipeline runs.
    pub fn stage_count(&self) -> (r: usize)
        ensures
            r == self.stages@.len(),
    {
        self.stages.len()
    }

    fn neighbor_ok(&self, chunks: &Chunks, cx: i32, cz: i32, k: usize) -> (r: bool)
        requires
            chunks.wf(),
        ensures
            r == neighbor_done(*chunks, cx as int, cz as int, k as int),
    {
        if cx < chunks.min_cx || cx > chunks.max_cx || cz < chunks.min_cz || cz > chunks.max_cz {
            return true;
        }
        chunks.is_chunk_ready(cx, cz, k)
    }

    /// Whether the chunk at a coordinate may run its next stage now.
    pub fn is_eligible(&self, chunks: &Chunks, cx: i32, cz: i32) -> (r: bool)
        requires
            chunks.wf(),
            -0x4000_0000 <= cx <= 0x4000_0000,
            -0x4000_0000 <= cz <= 0x4000_0000,
        ensures
            r == eligible_spec(*self, *chunks, cx as int, cz as int),
    {
        let c = match chunks.get_chunk(cx, cz) {
            Some(c) => c,
            None => {
                return false;
            },
        };
        let k: usize = c.stage;
        if k >= self.stages.len() {
            return false;
        }
        if self.stages[k].is_none() {
            return true;
        }
        self.neighbor_ok(chunks, cx - 1, cz - 1, k) && self.neighbor_ok(chunks, cx - 1, cz, k)
            && self.neighbor_ok(chunks, cx - 1, cz + 1, k) && self.neighbor_ok(
            chunks,
            cx,
            cz - 1,
            k,
        ) && self.neighbor_ok(chunks, cx, cz + 1, k) && self.neighbor_ok(chunks, cx + 1, cz - 1, k)
            && self.neighbor_ok(chunks, cx + 1, cz, k) && self.neighbor_ok(chunks, cx + 1, cz + 1, k)
    }

    /// Gather up to `max` chunks that may run a stage this tick: exactly the
    /// eligible prefix of the candidate list, cut at the budget. The pick
    /// keeps the candidates' order, so a caller that hands the candidates in
    /// the scheduler's preference order (lower stage first, then distance to
    /// the origin) receives the picks in that order too.
    pub fn select_for_tick(&self, chunks: &Chunks, candidates: &Vec<ChunkCoords>, max: usize) -> (r:
        Vec<ChunkCoords>)
        requires
            chunks.wf(),
            forall|i: int|
                0 <= i < candidates@.len() ==> -0x4000_0000 <= #[trigger] candidates@[i].x
                    <= 0x4000_0000 && -0x4000_0000 <= candidates@[i].z <= 0x4000_0000,
        ensures
            r@ == select_spec(self, *chunks, candidates@, 0, max as int),
            r@.len() <= max,
            forall|i: int|
                0 <= i < r@.len() ==> eligible_spec(
                    *self,
                    *chunks,
                    #[trigger] r@[i].x as int,
                    r@[i].z as int,
                ),
            priority_ordered(*chunks, candidates@) ==> priority_ordered(*chunks, r@),
    {
        let mut out: Vec<ChunkCoords> = Vec::new();
        let ghost mut idxs: Seq<int> = Seq::empty();
        let mut i: usize = 0;
        while i < candidates.len()
            invariant
                chunks.wf(),
                forall|j: int|
                    0 <= j < candidates@.len() ==> -0x4000_0000 <= #[trigger] candidates@[j].x
                        <= 0x4000_0000 && -0x4000_0000 <= candidates@[j].z <= 0x4000_0000,
                i <= candidates@.len(),
                out@.len() <= max,
                select_spec(self, *chunks, candidates@, 0, max as int) =~= out@ + select_spec(
                    self,
                    *chunks,
                    candidates@,
                    i as int,
                    max - out@.len(),
                ),
                forall|j: int|
                    0 <= j < out@.len() ==> eligible_spec(
                        *self,
                        *chunks,
                        #[trigger] out@[j].x as int,
                        out@[j].z as int,
                    ),
                idxs.len() == out@.len(),
                forall|k: int|
                    0 <= k < idxs.len() ==> 0 <= #[trigger] idxs[k] < i as int && out@[k]
                        == candidates@[idxs[k]],
                forall|k1: int, k2: int|
                    0 <= k1 < k2 < idxs.len() ==> #[trigger] idxs[k1] < #[trigger] idxs[k2],
            decreases candidates@.len() - i,
        {
            if out.len() == max {
                proof {
                    assert(select_spec(self, *chunks, candidates@, i as int, 0) =~= Seq::empty());
                    assert(out@ + Seq::<ChunkCoords>::empty() =~= out@);
                    lemma_pick_keeps_order(*chunks, candidates@, out@, idxs);
                }
                return out;
            }
            let cand = candidates[i];
            if self.is_eligible(chunks, cand.x, cand.z) {
                out.push(cand);
                proof {
                    idxs = idxs.push(i as int);
                }
            }
            i = i + 1;
        }
        proof {
            assert(out@ + Seq::<ChunkCoords>::empty() =~= out@);
            lemma_pick_keeps_order(*chunks, candidates@, out@, idxs);
        }
        out
    }
}

/// A pick that takes candidates in their own order keeps the scheduler's
/// preference order whenever the candidates carried it.
proof fn lemma_pick_keeps_order(
    chunks: Chunks,
    cands: Seq<ChunkCoords>,
    out: Seq<ChunkCoords>,
    idxs: Seq<int>,
)
    requires
        idxs.len() == out.len(),
        forall|k: int| 0 <= k < idxs.len() ==> 0 <= #[trigger] idxs[k] < cands.len() && out[k]
            == cands[idxs[k]],
        forall|k1: int, k2: int|
            0 <= k1 < k2 < idxs.len() ==> #[trigger] idxs[k1] < #[trigger] idxs[k2],
    ensures
        priority_ordered(chunks, cands) ==> priority_ordered(chunks, out),
{
    if priority_ordered(chunks, cands) {
        assert forall|i: int, j: int| 0 <= i < j < out.len() implies #[trigger] tick_priority_le(
            chunks,
            out[i],
            out[j],
        ) by {
            assert(idxs[i] < idxs[j]);
            assert(tick_priority_le(chunks, cands[idxs[i]], cands[idxs[j]]));
        }
    }
}

/// The stage a candidate chunk waits on, for scheduling priority; a missing
/// chunk sorts last.
pub open spec fn stage_key(chunks: Chunks, c: ChunkCoords) -> int {
    if chunks.map@.contains_key(key_of(c.x, c.z)) {
        chunks.map@[key_of(c.x, c.z)].stage as int
    } else {
        1_000_000_000
    }
}

/// The squared distance of a chunk coordinate from the origin.
pub open spec fn dist2_spec(c: ChunkCoords) -> int {
    (c.x as int) * (c.x as int) + (c.z as int) * (c.z as int)
}

/// The scheduler's preference: lower stage first, nearer the origin first
/// among equals.
pub open spec fn tick_priority_le(chunks: Chunks, a: ChunkCoords, b: ChunkCoords) -> bool {
    stage_key(chunks, a) < stage_key(chunks, b) || (stage_key(chunks, a) == stage_key(chunks, b)
        && dist2_spec(a) <= dist2_spec(b))
}

/// Whether a candidate list is in the scheduler's preference order.
pub open spec fn priority_ordered(chunks: Chunks, s: Seq<ChunkCoords>) -> bool {
    forall|i: int, j: int|
        0 <= i < j < s.len() ==> #[trigger] tick_priority_le(chunks, s[i], s[j])
}

/// The chunks a tick picks: walking the candidates from `k` with `budget`
/// picks left, each eligible one is taken until the budget runs out.
pub open spec fn select_spec(
    p: &Pipeline,
    chunks: Chunks,
    cands: Seq<ChunkCoords>,
    k: int,
    budget: int,
) -> Seq<ChunkCoords>
    decreases cands.len() - k,
{
    if k < 0 || k >= cands.len() || budget <= 0 {
        Seq::empty()
    } else if eligible_spec(*p, chunks, cands[k].x as int, cands[k].z as int) {
        seq![cands[k]] + select_spec(p, chunks, cands, k + 1, budget - 1)
    } else {
        select_spec(p, chunks, cands, k + 1, budget)
    }
}

} // verus!
