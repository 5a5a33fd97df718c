use vstd::prelude::*;

use std::collections::HashMap;

use crate::fx::{abs_i, floor_div};
use crate::registry::AIR;

verus! {

broadcast use vstd::std_specs::hash::group_hash_axioms;

/// Read access to voxel ids at absolute integer coordinates. Reads outside
/// whatever the realization has loaded yield air.
/// The largest coordinate magnitude reads accept; keeps every intermediate
/// sum of the lookup arithmetic inside `i64`.
pub const COORD_LIMIT: i64 = 0x4000_0000_0000_0000;

pub trait VoxelAccess {
    /// The realization's own well-formedness; reads ask for it.
    spec fn inv(&self) -> bool;

    /// The voxel id the access yields at an absolute coordinate.
    spec fn voxel_at(&self, vx: int, vy: int, vz: int) -> u32;

    /// The height-map entry the access yields for a column.
    spec fn max_height_at(&self, vx: int, vz: int) -> u32;

    /// Read the voxel id at an absolute coordinate.
    fn get_voxel(&self, vx: i64, vy: i64, vz: i64) -> (id: u32)
        requires
            self.inv(),
            abs_i(vx as int) <= COORD_LIMIT,
            abs_i(vy as int) <= COORD_LIMIT,
            abs_i(vz as int) <= COORD_LIMIT,
        ensures
            id == self.voxel_at(vx as int, vy as int, vz as int),
    ;

    /// Read the height-map entry of a column.
    fn get_max_height(&self, vx: i64, vz: i64) -> (h: u32)
        requires
            self.inv(),
            abs_i(vx as int) <= COORD_LIMIT,
            abs_i(vz as int) <= COORD_LIMIT,
        ensures
            h == self.max_height_at(vx as int, vz as int),
    ;
}

/// A fixed column of voxels: a dense `size x max_height x size` array of ids,
/// a `size x size` height map, its 2-D chunk coordinate, and the index of the
/// next generation stage to run on it.
pub struct Chunk {
    pub cx: i32,
    pub cz: i32,
    pub size: usize,
    pub max_height: usize,
    pub voxels: Vec<u32>,
    pub height_map: Vec<u32>,
    pub stage: usize,
}

impl Chunk {
    /// Index of a local coordinate in the dense voxel array.
    pub open spec fn vox_idx(self, x: int, y: int, z: int) -> int {
        (x * self.max_height + y) * self.size + z
    }

    /// Index of a local column in the height map.
    pub open spec fn col_idx(self, x: int, z: int) -> int {
        x * self.size + z
    }

    /// The id stored at a local coordinate.
    pub open spec fn voxel_local(self, x: int, y: int, z: int) -> u32 {
        self.voxels[self.vox_idx(x, y, z)]
    }

    pub open spec fn wf(self) -> bool {
        &&& 1 <= self.size <= 1024
        &&& 1 <= self.max_height <= 1024
        &&& self.voxels.len() == self.size * self.max_height * self.size
        &&& self.height_map.len() == self.size * self.size
    }

    /// The absolute voxel coordinate where this chunk starts on x.
    pub open spec fn origin_x(self) -> int {
        self.cx * self.size
    }

    /// The absolute voxel coordinate where this chunk starts on z.
    pub open spec fn origin_z(self) -> int {
        self.cz * self.size
    }

    /// A freshly created chunk: all air, an all-zero height map, at stage 0.
    pub fn new(cx: i32, cz: i32, size: usize, max_height: usize) -> (r: Chunk)
        requires
            1 <= size <= 1024,
            1 <= max_height <= 1024,
        ensures
            r.wf(),
            r.cx == cx && r.cz == cz && r.size == size && r.max_height == max_height,
            r.stage == 0,
            forall|i: int| 0 <= i < r.voxels.len() ==> r.voxels[i] == AIR,
            forall|i: int| 0 <= i < r.height_map.len() ==> r.height_map[i] == 0u32,
    {
        proof {
            assert(size * max_height * size <= 1024 * 1024 * 1024) by (nonlinear_arith)
                requires
                    1 <= size <= 1024,
                    1 <= max_height <= 1024,
            ;
            assert(size * max_height >= 1 && size * max_height * size >= size * max_height)
                by (nonlinear_arith)
                requires
                    1 <= size,
                    1 <= max_height,
            ;
            assert(size * size <= 1024 * 1024) by (nonlinear_arith)
                requires
                    1 <= size <= 1024,
            ;
        }
        let plane: usize = size * max_height;
        let total: usize = plane * size;
        let mut voxels: Vec<u32> = Vec::new();
        let mut i: usize = 0;
        while i < total
            invariant
                0 <= i <= total,
                voxels.len() == i,
                forall|j: int| 0 <= j < i ==> voxels[j] == AIR,
            decreases total - i,
        {
            voxels.push(AIR);
            i = i + 1;
        }
        let cols: usize = size * size;
        let mut height_map: Vec<u32> = Vec::new();
        let mut k: usize = 0;
        while k < cols
            invariant
                0 <= k <= cols,
                height_map.len() == k,
                forall|j: int| 0 <= j < k ==> height_map[j] == 0u32,
            decreases cols - k,
        {
            height_map.push(0);
            k = k + 1;
        }
        Chunk { cx, cz, size, max_height, voxels, height_map, stage: 0 }
    }

    pub proof fn lemma_vox_idx_in_range(self, x: int, y: int, z: int)
        requires
            self.wf(),
            0 <= x < self.size,
            0 <= y < self.max_height,
            0 <= z < self.size,
        ensures
            0 <= self.vox_idx(x, y, z) < self.voxels.len(),
            0 <= x * self.max_height + y < 0x100000,
            0 <= (x * self.max_height + y) * self.size + z < 0x40000000,
    {
        assert(0 <= (x * self.max_height + y) * self.size + z < self.size * self.max_height
            * self.size <= 0x40000000 && 0 <= x * self.max_height + y < 0x100000)
            by (nonlinear_arith)
            requires
                0 <= x < self.size <= 1024,
                0 <= y < self.max_height <= 1024,
                0 <= z < self.size,
        ;
    }

    /// Read the id at a local coordinate.
    pub fn get_voxel_local(&self, x: usize, y: usize, z: usize) -> (id: u32)
        requires
            self.wf(),
            x < self.size,
            y < self.max_height,
            z < self.size,
        ensures
            id == self.voxel_local(x as int, y as int, z as int),
    {
        proof {
            self.lemma_vox_idx_in_range(x as int, y as int, z as int);
        }
        let idx: usize = (x * self.max_height + y) * self.size + z;
        self.voxels[idx]
    }

    /// Write the id at a local coordinate; the dense array is updated at that
    /// coordinate's index alone.
    pub fn set_voxel_local(&mut self, x: usize, y: usize, z: usize, id: u32)
        requires
            old(self).wf(),
            x < old(self).size,
            y < old(self).max_height,
            z < old(self).size,
        ensures
            final(self).wf(),
            final(self).voxels@ == old(self).voxels@.update(
                old(self).vox_idx(x as int, y as int, z as int),
                id,
            ),
            final(self).height_map == old(self).height_map,
            final(self).cx == old(self).cx && final(self).cz == old(self).cz,
            final(self).size == old(self).size && final(self).max_height == old(self).max_height,
            final(self).stage == old(self).stage,
    {
        proof {
            self.lemma_vox_idx_in_range(x as int, y as int, z as int);
        }
        let idx: usize = (x * self.max_height + y) * self.size + z;
        self.voxels[idx] = id;
    }

    /// Two distinct in-range local coordinates use distinct indices in the
    /// dense voxel array.
    pub proof fn lemma_vox_idx_injective(self, x1: int, y1: int, z1: int, x2: int, y2: int, z2: int)
        requires
            self.wf(),
            0 <= x1 < self.size,
            0 <= y1 < self.max_height,
            0 <= z1 < self.size,
            0 <= x2 < self.size,
            0 <= y2 < self.max_height,
            0 <= z2 < self.size,
            self.vox_idx(x1, y1, z1) == self.vox_idx(x2, y2, z2),
        ensures
            x1 == x2 && y1 == y2 && z1 == z2,
    {
        assert(x1 == x2 && y1 == y2 && z1 == z2) by (nonlinear_arith)
            requires
                0 <= x1 < self.size,
                0 <= y1 < self.max_height,
                0 <= z1 < self.size,
                0 <= x2 < self.size,
                0 <= y2 < self.max_height,
                0 <= z2 < self.size,
                (x1 * self.max_height + y1) * self.size + z1 == (x2 * self.max_height + y2)
                    * self.size + z2,
        ;
    }

    /// Read the height-map entry of a local column.
    pub fn get_height_local(&self, x: usize, z: usize) -> (h: u32)
        requires
            self.wf(),
            x < self.size,
            z < self.size,
        ensures
            h == self.height_map[self.col_idx(x as int, z as int)],
    {
        proof {
            assert(0 <= x * self.size + z < self.size * self.size) by (nonlinear_arith)
                requires
                    0 <= x < self.size,
                    0 <= z < self.size,
            ;
        }
        let idx: usize = x * self.size + z;
        self.height_map[idx]
    }

    /// Write the height-map entry of a local column.
    pub fn set_height_local(&mut self, x: usize, z: usize, h: u32)
        requires
            old(self).wf(),
            x < old(self).size,
            z < old(self).size,
        ensures
            final(self).wf(),
            final(self).height_map@ == old(self).height_map@.update(
                old(self).col_idx(x as int, z as int),
                h,
            ),
            final(self).voxels == old(self).voxels,
            final(self).cx == old(self).cx && final(self).cz == old(self).cz,
            final(self).size == old(self).size && final(self).max_height == old(self).max_height,
            final(self).stage == old(self).stage,
    {
        proof {
            assert(0 <= x * self.size + z < self.size * self.size) by (nonlinear_arith)
                requires
                    0 <= x < self.size,
                    0 <= z < self.size,
            ;
        }
        let idx: usize = x * self.size + z;
        self.height_map[idx] = h;
    }
}

/// The map key a chunk coordinate is stored under.
pub open spec fn key_of(cx: i32, cz: i32) -> u64 {
    ((cx as u32 as u64) << 32u64) | (cz as u32 as u64)
}

/// Pack a chunk coordinate into its map key.
pub fn pack_key(cx: i32, cz: i32) -> (k: u64)
    ensures
        k == key_of(cx, cz),
{
    ((cx as u32 as u64) << 32u64) | (cz as u32 as u64)
}

/// Distinct chunk coordinates pack to distinct keys.
pub proof fn lemma_key_injective(cx1: i32, cz1: i32, cx2: i32, cz2: i32)
    requires
        key_of(cx1, cz1) == key_of(cx2, cz2),
    ensures
        cx1 == cx2 && cz1 == cz2,
{
    let a1 = cx1 as u32;
    let b1 = cz1 as u32;
    let a2 = cx2 as u32;
    let b2 = cz2 as u32;
    assert(((a1 as u64) << 32u64 | (b1 as u64)) == ((a2 as u64) << 32u64 | (b2 as u64)) ==> a1
        == a2 && b1 == b2) by (bit_vector);
    assert(cx1 as u32 == cx2 as u32 ==> cx1 == cx2) by (bit_vector);
    assert(cz1 as u32 == cz2 as u32 ==> cz1 == cz2) by (bit_vector);
}

/// All chunks of a world, addressed by 2-D chunk coordinate and bounded by
/// the world's minimum and maximum chunk.
pub struct Chunks {
    pub chunk_size: usize,
    pub max_height: usize,
    pub min_cx: i32,
    pub min_cz: i32,
    pub max_cx: i32,
    pub max_cz: i32,
    pub map: HashMap<u64, Chunk>,
}

impl Chunks {
    pub open spec fn wf(self) -> bool {
        &&& 1 <= self.chunk_size <= 1024
        &&& 1 <= self.max_height <= 1024
        &&& self.min_cx <= self.max_cx
        &&& self.min_cz <= self.max_cz
        &&& forall|k: u64|
            #[trigger] self.map@.contains_key(k) ==> self.map@[k].wf() && self.map@[k].size
                == self.chunk_size && self.map@[k].max_height == self.max_height && key_of(
                self.map@[k].cx,
                self.map@[k].cz,
            ) == k && self.min_cx <= self.map@[k].cx <= self.max_cx && self.min_cz
                <= self.map@[k].cz <= self.max_cz
    }

    /// The chunk coordinate covering an absolute voxel coordinate.
    pub open spec fn chunk_coord(self, v: int) -> int {
        v / (self.chunk_size as int)
    }

    /// Whether a coordinate pair lies within the world's chunk bounds.
    pub open spec fn in_bounds(self, cx: int, cz: int) -> bool {
        self.min_cx <= cx <= self.max_cx && self.min_cz <= cz <= self.max_cz
    }

    pub open spec fn spec_voxel_at(self, vx: int, vy: int, vz: int) -> u32 {
        if !(0 <= vy < self.max_height) {
            AIR
        } else {
            let cx = self.chunk_coord(vx);
            let cz = self.chunk_coord(vz);
            if !self.in_bounds(cx, cz) {
                AIR
            } else {
                let k = key_of(cx as i32, cz as i32);
                if self.map@.contains_key(k) {
                    self.map@[k].voxel_local(
                        vx - cx * self.chunk_size,
                        vy,
                        vz - cz * self.chunk_size,
                    )
                } else {
                    AIR
                }
            }
        }
    }

    pub open spec fn spec_max_height_at(self, vx: int, vz: int) -> u32 {
        let cx = self.chunk_coord(vx);
        let cz = self.chunk_coord(vz);
        if !self.in_bounds(cx, cz) {
            0u32
        } else {
            let k = key_of(cx as i32, cz as i32);
            if self.map@.contains_key(k) {
                self.map@[k].height_map[self.map@[k].col_idx(
                    vx - cx * self.chunk_size,
                    vz - cz * self.chunk_size,
                )]
            } else {
                0u32
            }
        }
    }

    pub fn new(chunk_size: usize, max_height: usize, min_cx: i32, min_cz: i32, max_cx: i32, max_cz: i32) -> (r:
        Chunks)
        requires
            1 <= chunk_size <= 1024,
            1 <= max_height <= 1024,
            min_cx <= max_cx,
            min_cz <= max_cz,
        ensures
            r.wf(),
            r.chunk_size == chunk_size,
            r.max_height == max_height,
            r.min_cx == min_cx && r.min_cz == min_cz && r.max_cx == max_cx && r.max_cz == max_cz,
            r.map@ == Map::<u64, Chunk>::empty(),
    {
        Chunks {
            chunk_size,
            max_height,
            min_cx,
            min_cz,
            max_cx,
            max_cz,
            map: HashMap::new(),
        }
    }

    /// The chunk coordinate and the in-chunk offset of an absolute voxel
    /// coordinate.
    fn locate(&self, v: i64) -> (r: (i64, usize))
        requires
            self.wf(),
            abs_i(v as int) <= COORD_LIMIT,
        ensures
            r.0 == self.chunk_coord(v as int),
            r.1 == v - self.chunk_coord(v as int) * self.chunk_size,
            r.1 < self.chunk_size,
    {
        let s: i64 = self.chunk_size as i64;
        let c: i64 = floor_div(v, s);
        proof {
            vstd::arithmetic::div_mod::lemma_fundamental_div_mod(v as int, s as int);
            assert(0 <= (v as int) % (s as int) < s as int) by {
                vstd::arithmetic::div_mod::lemma_mod_bound(v as int, s as int);
            }
        }
        let off: i64 = v - c * s;
        (c, off as usize)
    }

    /// Whether the chunk at a coordinate exists and has advanced past the
    /// given number of pipeline stages.
    pub fn is_chunk_ready(&self, cx: i32, cz: i32, stage_count: usize) -> (r: bool)
        requires
            self.wf(),
        ensures
            r == (self.map@.contains_key(key_of(cx, cz)) && self.map@[key_of(cx, cz)].stage
                >= stage_count),
    {
        let k: u64 = pack_key(cx, cz);
        match self.map.get(&k) {
            Some(c) => c.stage >= stage_count,
            None => false,
        }
    }

    /// Fetch the chunk stored at a coordinate.
    pub fn get_chunk(&self, cx: i32, cz: i32) -> (r: Option<&Chunk>)
        requires
            self.wf(),
        ensures
            match r {
                Some(c) => self.map@.contains_key(key_of(cx, cz)) && *c == self.map@[key_of(
                    cx,
                    cz,
                )],
                None => !self.map@.contains_key(key_of(cx, cz)),
            },
    {
        let k: u64 = pack_key(cx, cz);
        self.map.get(&k)
    }

    /// Take the chunk stored at a coordinate out of the map.
    pub fn remove_chunk(&mut self, cx: i32, cz: i32) -> (r: Option<Chunk>)
        requires
            old(self).wf(),
        ensures
            final(self).wf(),
            final(self).chunk_size == old(self).chunk_size,
            final(self).max_height == old(self).max_height,
            final(self).min_cx == old(self).min_cx && final(self).min_cz == old(self).min_cz,
            final(self).max_cx == old(self).max_cx && final(self).max_cz == old(self).max_cz,
            final(self).map@ == old(self).map@.remove(key_of(cx, cz)),
            match r {
                Some(c) => old(self).map@.contains_key(key_of(cx, cz)) && c == old(self).map@[
                    key_of(cx, cz)],
                None => !old(self).map@.contains_key(key_of(cx, cz)),
            },
    {
        let k: u64 = pack_key(cx, cz);
        self.map.remove(&k)
    }

    /// Write a voxel id at an absolute coordinate: a no-op when the height is
    /// out of range or no chunk is loaded there, otherwise the owning chunk's
    /// dense array is updated at that one cell.
    pub fn set_voxel(&mut self, vx: i64, vy: i64, vz: i64, id: u32)
        requires
            old(self).wf(),
            abs_i(vx as int) <= COORD_LIMIT,
            abs_i(vy as int) <= COORD_LIMIT,
            abs_i(vz as int) <= COORD_LIMIT,
        ensures
            final(self).wf(),
            final(self).chunk_size == old(self).chunk_size,
            final(self).max_height == old(self).max_height,
            final(self).min_cx == old(self).min_cx && final(self).min_cz == old(self).min_cz,
            final(self).max_cx == old(self).max_cx && final(self).max_cz == old(self).max_cz,
            final(self).map@.dom() == old(self).map@.dom(),
            forall|k2: u64|
                final(self).map@.contains_key(k2) && k2 != key_of(
                    (old(self).chunk_coord(vx as int)) as i32,
                    (old(self).chunk_coord(vz as int)) as i32,
                ) ==> #[trigger] final(self).map@[k2] == old(self).map@[k2],
            !(0 <= vy < old(self).max_height && old(self).map@.contains_key(
                key_of(
                    (old(self).chunk_coord(vx as int)) as i32,
                    (old(self).chunk_coord(vz as int)) as i32,
                ),
            ) && old(self).in_bounds(
                old(self).chunk_coord(vx as int),
                old(self).chunk_coord(vz as int),
            )) ==> *final(self) == *old(self),
            0 <= vy < old(self).max_height && old(self).map@.contains_key(
                key_of(
                    (old(self).chunk_coord(vx as int)) as i32,
                    (old(self).chunk_coord(vz as int)) as i32,
                ),
            ) && old(self).in_bounds(
                old(self).chunk_coord(vx as int),
                old(self).chunk_coord(vz as int),
            ) ==> final(self).spec_voxel_at(vx as int, vy as int, vz as int) == id && chunk_written(
                old(self).map@[key_of(
                    (old(self).chunk_coord(vx as int)) as i32,
                    (old(self).chunk_coord(vz as int)) as i32,
                )],
                final(self).map@[key_of(
                    (old(self).chunk_coord(vx as int)) as i32,
                    (old(self).chunk_coord(vz as int)) as i32,
                )],
                vx as int - old(self).chunk_coord(vx as int) * old(self).chunk_size,
                vy as int,
                vz as int - old(self).chunk_coord(vz as int) * old(self).chunk_size,
                id,
            ),
    {
        if vy < 0 || vy >= self.max_height as i64 {
            return ;
        }
        let vyu: usize = vy as usize;
        let (cx, lx) = self.locate(vx);
        let (cz, lz) = self.locate(vz);
        if cx < self.min_cx as i64 || cx > self.max_cx as i64 || cz < self.min_cz as i64 || cz
            > self.max_cz as i64 {
            return ;
        }
        let k: u64 = pack_key(cx as i32, cz as i32);
        if self.map.get(&k).is_none() {
            return ;
        }
        match self.map.remove(&k) {
            Some(mut c) => {
                c.set_voxel_local(lx, vyu, lz, id);
                self.map.insert(k, c);
                proof {
                    c.lemma_vox_idx_in_range(lx as int, vyu as int, lz as int);
                    assert(final(self).map@.dom() =~= old(self).map@.dom());
                }
            },
            None => {
                proof {
                    assert(false);
                }
            },
        }
    }

    /// Store a chunk under its own coordinate.
    pub fn insert_chunk(&mut self, chunk: Chunk)
        requires
            old(self).wf(),
            chunk.wf(),
            chunk.size == old(self).chunk_size,
            chunk.max_height == old(self).max_height,
            old(self).in_bounds(chunk.cx as int, chunk.cz as int),
        ensures
            final(self).wf(),
            final(self).chunk_size == old(self).chunk_size,
            final(self).max_height == old(self).max_height,
            final(self).min_cx == old(self).min_cx && final(self).min_cz == old(self).min_cz,
            final(self).max_cx == old(self).max_cx && final(self).max_cz == old(self).max_cz,
            final(self).map@ == old(self).map@.insert(key_of(chunk.cx, chunk.cz), chunk),
    {
        let k: u64 = pack_key(chunk.cx, chunk.cz);
        self.map.insert(k, chunk);
    }
}

/// The written chunk differs from the old one in exactly the one cell: the
/// dense array is updated at that cell's index, everything else is kept.
pub open spec fn chunk_written(c0: Chunk, c1: Chunk, lx: int, ly: int, lz: int, id: u32) -> bool {
    &&& c1.voxels@ == c0.voxels@.update(c0.vox_idx(lx, ly, lz), id)
    &&& c1.height_map == c0.height_map
    &&& c1.cx == c0.cx && c1.cz == c0.cz
    &&& c1.size == c0.size && c1.max_height == c0.max_height
    &&& c1.stage == c0.stage
}

impl VoxelAccess for Chunks {
    open spec fn inv(&self) -> bool {
        self.wf()
    }

    open spec fn voxel_at(&self, vx: int, vy: int, vz: int) -> u32 {
        self.spec_voxel_at(vx, vy, vz)
    }

    open spec fn max_height_at(&self, vx: int, vz: int) -> u32 {
        self.spec_max_height_at(vx, vz)
    }

    fn get_voxel(&self, vx: i64, vy: i64, vz: i64) -> (id: u32) {
        if vy < 0 || vy >= self.max_height as i64 {
            return AIR;
        }
        let vyu: usize = vy as usize;
        let (cx, lx) = self.locate(vx);
        let (cz, lz) = self.locate(vz);
        if cx < self.min_cx as i64 || cx > self.max_cx as i64 || cz < self.min_cz as i64 || cz
            > self.max_cz as i64 {
            return AIR;
        }
        let k: u64 = pack_key(cx as i32, cz as i32);
        match self.map.get(&k) {
            Some(c) => c.get_voxel_local(lx, vyu, lz),
            None => AIR,
        }
    }

    fn get_max_height(&self, vx: i64, vz: i64) -> (h: u32) {
        let (cx, lx) = self.locate(vx);
        let (cz, lz) = self.locate(vz);
        if cx < self.min_cx as i64 || cx > self.max_cx as i64 || cz < self.min_cz as i64 || cz
            > self.max_cz as i64 {
            return 0;
        }
        let k: u64 = pack_key(cx as i32, cz as i32);
        match self.map.get(&k) {
            Some(c) => c.get_height_local(lx, lz),
            None => 0,
        }
    }
}

/// A read-only view over the chunks near a center chunk, limited to a margin
/// of voxels around it; reads beyond the margin yield air. Stages that need
/// neighbor context receive one of these.
pub struct Space<'a> {
    pub chunks: &'a Chunks,
    pub center_cx: i32,
    pub center_cz: i32,
    pub margin: usize,
}

impl<'a> Space<'a> {
    pub open spec fn wf(self) -> bool {
        &&& self.chunks.wf()
        &&& self.margin <= 1024
    }

    /// The horizontal voxel region the space exposes: the center chunk
    /// widened by the margin on every side.
    pub open spec fn in_region(self, vx: int, vz: int) -> bool {
        &&& self.center_cx * self.chunks.chunk_size - self.margin <= vx < (self.center_cx + 1)
            * self.chunks.chunk_size + self.margin
        &&& self.center_cz * self.chunks.chunk_size - self.margin <= vz < (self.center_cz + 1)
            * self.chunks.chunk_size + self.margin
    }

    pub fn new(chunks: &'a Chunks, center_cx: i32, center_cz: i32, margin: usize) -> (r: Space<'a>)
        requires
            chunks.wf(),
            margin <= 1024,
        ensures
            r.wf(),
            r.chunks == chunks,
            r.center_cx == center_cx && r.center_cz == center_cz && r.margin == margin,
    {
        Space { chunks, center_cx, center_cz, margin }
    }

    /// Region membership, computed in 64-bit arithmetic.
    fn contains_column(&self, vx: i64, vz: i64) -> (r: bool)
        requires
            self.wf(),
        ensures
            r == self.in_region(vx as int, vz as int),
    {
        let s: i64 = self.chunks.chunk_size as i64;
        let m: i64 = self.margin as i64;
        proof {
            assert(abs_i((self.center_cx as int) * (s as int)) <= 0x8000_0000 * 1024
                && abs_i(((self.center_cx as int) + 1) * (s as int)) <= 0x8000_0001 * 1024
                && abs_i((self.center_cz as int) * (s as int)) <= 0x8000_0000 * 1024
                && abs_i(((self.center_cz as int) + 1) * (s as int)) <= 0x8000_0001 * 1024)
                by (nonlinear_arith)
                requires
                    -0x8000_0000 <= self.center_cx < 0x8000_0000,
                    -0x8000_0000 <= self.center_cz < 0x8000_0000,
                    1 <= s <= 1024,
            ;
        }
        let lo_x: i64 = (self.center_cx as i64) * s - m;
        let hi_x: i64 = ((self.center_cx as i64) + 1) * s + m;
        let lo_z: i64 = (self.center_cz as i64) * s - m;
        let hi_z: i64 = ((self.center_cz as i64) + 1) * s + m;
        lo_x <= (vx as i64) && (vx as i64) < hi_x && lo_z <= (vz as i64) && (vz as i64) < hi_z
    }
}

impl<'a> VoxelAccess for Space<'a> {
    open spec fn inv(&self) -> bool {
        self.wf()
    }

    open spec fn voxel_at(&self, vx: int, vy: int, vz: int) -> u32 {
        if self.in_region(vx, vz) {
            self.chunks.spec_voxel_at(vx, vy, vz)
        } else {
            AIR
        }
    }

    open spec fn max_height_at(&self, vx: int, vz: int) -> u32 {
        if self.in_region(vx, vz) {
            self.chunks.spec_max_height_at(vx, vz)
        } else {
            0u32
        }
    }

    fn get_voxel(&self, vx: i64, vy: i64, vz: i64) -> (id: u32) {
        if self.contains_column(vx, vz) {
            self.chunks.get_voxel(vx, vy, vz)
        } else {
            AIR
        }
    }

    fn get_max_height(&self, vx: i64, vz: i64) -> (h: u32) {
        if self.contains_column(vx, vz) {
            self.chunks.get_max_height(vx, vz)
        } else {
            0
        }
    }
}

} // verus!
