use vstd::prelude::*;

use crate::fx::abs_i;
use crate::vec3::Vec3;

verus! {

/// A 2-D chunk coordinate.
#[derive(Clone, Copy, PartialEq, Eq, Structural, Debug)]
pub struct ChunkCoords {
    pub x: i32,
    pub z: i32,
}

/// The options a world is created with. Physical quantities are fixed-point
/// (thousandths of a unit).
#[derive(Clone, Copy, PartialEq, Eq, Structural, Debug)]
pub struct WorldConfig {
    pub max_clients: usize,
    pub interval: u64,
    pub chunk_size: usize,
    pub min_chunk: ChunkCoords,
    pub max_chunk: ChunkCoords,
    pub max_height: usize,
    pub max_light_level: u32,
    pub max_chunk_per_tick: usize,
    pub max_updates_per_tick: usize,
    pub max_response_per_tick: usize,
    pub preload_radius: u32,
    pub gravity: Vec3,
    pub min_bounce_impulse: i64,
    pub air_drag: i64,
    pub fluid_drag: i64,
    pub fluid_density: i64,
    pub collision_repulsion: i64,
    pub seed: i32,
}

/// What a newly joined client is told about a world.
#[derive(Clone, Copy, PartialEq, Eq, Structural, Debug)]
pub struct InitConfig {
    pub chunk_size: usize,
    pub max_height: usize,
    pub max_light_level: u32,
    pub min_chunk: ChunkCoords,
    pub max_chunk: ChunkCoords,
}

impl WorldConfig {
    /// The bounds every well-formed configuration respects; they keep the
    /// integrator's fixed-point arithmetic inside `i64`.
    pub open spec fn wf(self) -> bool {
        &&& 1 <= self.chunk_size <= 1024
        &&& 1 <= self.max_height <= 1024
        &&& self.min_chunk.x <= self.max_chunk.x
        &&& self.min_chunk.z <= self.max_chunk.z
        &&& self.gravity.all_abs_at_most(100_000)
        &&& 0 <= self.min_bounce_impulse <= 1_000_000_000
        &&& 0 <= self.air_drag <= 10_000
        &&& 0 <= self.fluid_drag <= 10_000
        &&& 0 <= self.fluid_density <= 10_000
        &&& 0 <= self.collision_repulsion <= 1_000_000
    }

    /// Start describing a world with the default options.
    pub fn new() -> (r: WorldConfigBuilder)
        ensures
            r == WorldConfigBuilder::default_spec(),
    {
        WorldConfigBuilder::new()
    }

    /// The subset of the options published to new clients.
    pub fn get_init_config(&self) -> (r: InitConfig)
        ensures
            r.chunk_size == self.chunk_size,
            r.max_height == self.max_height,
            r.max_light_level == self.max_light_level,
            r.min_chunk == self.min_chunk,
            r.max_chunk == self.max_chunk,
    {
        InitConfig {
            chunk_size: self.chunk_size,
            max_height: self.max_height,
            max_light_level: self.max_light_level,
            min_chunk: self.min_chunk,
            max_chunk: self.max_chunk,
        }
    }
}

/// Builder for a world configuration.
#[derive(Clone, Copy, PartialEq, Eq, Structural, Debug)]
pub struct WorldConfigBuilder {
    pub max_clients: usize,
    pub interval: u64,
    pub chunk_size: usize,
    pub min_chunk: ChunkCoords,
    pub max_chunk: ChunkCoords,
    pub max_height: usize,
    pub max_light_level: u32,
    pub max_chunk_per_tick: usize,
    pub max_updates_per_tick: usize,
    pub max_response_per_tick: usize,
    pub preload_radius: u32,
    pub collision_repulsion: i64,
    pub seed: i32,
}

impl WorldConfigBuilder {
    /// The default options: a 16-wide, 256-high world ticking every 8 ms
    /// under standard gravity.
    pub open spec fn default_spec() -> WorldConfigBuilder {
        WorldConfigBuilder {
            max_clients: 100,
            interval: 8,
            chunk_size: 16,
            min_chunk: ChunkCoords { x: -2147483647i32, z: -2147483647i32 },
            max_chunk: ChunkCoords { x: 2147483646, z: 2147483646 },
            max_height: 256,
            max_light_level: 15,
            max_chunk_per_tick: 24,
            max_updates_per_tick: 500,
            max_response_per_tick: 3,
            preload_radius: 8,
            collision_repulsion: 0,
            seed: 123123123,
        }
    }

    pub fn new() -> (r: WorldConfigBuilder)
        ensures
            r == WorldConfigBuilder::default_spec(),
    {
        WorldConfigBuilder {
            max_clients: 100,
            interval: 8,
            chunk_size: 16,
            min_chunk: ChunkCoords { x: -2147483647, z: -2147483647 },
            max_chunk: ChunkCoords { x: 2147483646, z: 2147483646 },
            max_height: 256,
            max_light_level: 15,
            max_chunk_per_tick: 24,
            max_updates_per_tick: 500,
            max_response_per_tick: 3,
            preload_radius: 8,
            collision_repulsion: 0,
            seed: 123123123,
        }
    }

    pub fn max_clients(self, max_clients: usize) -> (r: Self)
        ensures
            r == (WorldConfigBuilder { max_clients, ..self }),
    {
        WorldConfigBuilder { max_clients, ..self }
    }

    pub fn interval(self, interval: u64) -> (r: Self)
        ensures
            r == (WorldConfigBuilder { interval, ..self }),
    {
        WorldConfigBuilder { interval, ..self }
    }

    pub fn chunk_size(self, chunk_size: usize) -> (r: Self)
        ensures
            r == (WorldConfigBuilder { chunk_size, ..self }),
    {
        WorldConfigBuilder { chunk_size, ..self }
    }

    pub fn min_chunk(self, min_chunk: ChunkCoords) -> (r: Self)
        ensures
            r == (WorldConfigBuilder { min_chunk, ..self }),
    {
        WorldConfigBuilder { min_chunk, ..self }
    }

    pub fn max_chunk(self, max_chunk: ChunkCoords) -> (r: Self)
        ensures
            r == (WorldConfigBuilder { max_chunk, ..self }),
    {
        WorldConfigBuilder { max_chunk, ..self }
    }

    pub fn max_height(self, max_height: usize) -> (r: Self)
        ensures
            r == (WorldConfigBuilder { max_height, ..self }),
    {
        WorldConfigBuilder { max_height, ..self }
    }

    pub fn max_light_level(self, max_light_level: u32) -> (r: Self)
        ensures
            r == (WorldConfigBuilder { max_light_level, ..self }),
    {
        WorldConfigBuilder { max_light_level, ..self }
    }

    pub fn max_chunk_per_tick(self, max_chunk_per_tick: usize) -> (r: Self)
        ensures
            r == (WorldConfigBuilder { max_chunk_per_tick, ..self }),
    {
        WorldConfigBuilder { max_chunk_per_tick, ..self }
    }

    pub fn max_updates_per_tick(self, max_updates_per_tick: usize) -> (r: Self)
        ensures
            r == (WorldConfigBuilder { max_updates_per_tick, ..self }),
    {
        WorldConfigBuilder { max_updates_per_tick, ..self }
    }

    pub fn max_response_per_tick(self, max_response_per_tick: usize) -> (r: Self)
        ensures
            r == (WorldConfigBuilder { max_response_per_tick, ..self }),
    {
        WorldConfigBuilder { max_response_per_tick, ..self }
    }

    pub fn preload_radius(self, preload_radius: u32) -> (r: Self)
        ensures
            r == (WorldConfigBuilder { preload_radius, ..self }),
    {
        WorldConfigBuilder { preload_radius, ..self }
    }

    pub fn seed(self, seed: i32) -> (r: Self)
        ensures
            r == (WorldConfigBuilder { seed, ..self }),
    {
        WorldConfigBuilder { seed, ..self }
    }

    /// Configure how hard overlapping interactors push each other apart; zero
    /// turns the repulsion off.
    pub fn collision_repulsion(self, collision_repulsion: i64) -> (r: Self)
        ensures
            r == (WorldConfigBuilder { collision_repulsion, ..self }),
    {
        WorldConfigBuilder { collision_repulsion, ..self }
    }

    /// Create the configuration. The world must hold at least one chunk, so
    /// the maximum chunk may not lie below the minimum; the chunk size and
    /// height must fit a well-formed world.
    pub fn build(self) -> (r: WorldConfig)
        requires
            self.min_chunk.x <= self.max_chunk.x,
            self.min_chunk.z <= self.max_chunk.z,
            1 <= self.chunk_size <= 1024,
            1 <= self.max_height <= 1024,
            0 <= self.collision_repulsion <= 1_000_000,
        ensures
            r.wf(),
            r.max_clients == self.max_clients,
            r.interval == self.interval,
            r.chunk_size == self.chunk_size,
            r.min_chunk == self.min_chunk,
            r.max_chunk == self.max_chunk,
            r.max_height == self.max_height,
            r.max_light_level == self.max_light_level,
            r.max_chunk_per_tick == self.max_chunk_per_tick,
            r.max_updates_per_tick == self.max_updates_per_tick,
            r.max_response_per_tick == self.max_response_per_tick,
            r.preload_radius == self.preload_radius,
            r.seed == self.seed,
            r.gravity == (Vec3 { x: 0, y: -9800i64, z: 0 }),
            r.min_bounce_impulse == 100,
            r.air_drag == 100,
            r.fluid_drag == 400,
            r.fluid_density == 2000,
            r.collision_repulsion == self.collision_repulsion,
    {
        WorldConfig {
            max_clients: self.max_clients,
            interval: self.interval,
            chunk_size: self.chunk_size,
            min_chunk: self.min_chunk,
            max_chunk: self.max_chunk,
            max_height: self.max_height,
            max_light_level: self.max_light_level,
            max_chunk_per_tick: self.max_chunk_per_tick,
            max_updates_per_tick: self.max_updates_per_tick,
            max_response_per_tick: self.max_response_per_tick,
            preload_radius: self.preload_radius,
            gravity: Vec3 { x: 0, y: -9800, z: 0 },
            min_bounce_impulse: 100,
            air_drag: 100,
            fluid_drag: 400,
            fluid_density: 2000,
            collision_repulsion: self.collision_repulsion,
            seed: self.seed,
        }
    }
}

} // verus!
