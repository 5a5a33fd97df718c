use voxelize::aabb::Aabb;
use voxelize::config::{ChunkCoords, WorldConfig};
use voxelize::physics::Physics;
use voxelize::pipeline::{ChunkStage, HeightMapStage, Pipeline, SpaceRequirements};
use voxelize::registry::{Block, Registry};
use voxelize::rigidbody::RigidBody;
use voxelize::sweep::sweep_collide;
use voxelize::system::{ContactEvent, HandleBinding, PhysicsSystem};
use voxelize::vec3::{Vec3, Vec3i};
use voxelize::voxels::{Chunk, Chunks, VoxelAccess};

const STONE: u32 = 1;
const WATER: u32 = 2;

fn block(name: &str, is_fluid: bool) -> Block {
    Block {
        id: 0,
        name: name.to_owned(),
        is_fluid,
        is_transparent: false,
        is_light: false,
        red_light_level: 0,
        green_light_level: 0,
        blue_light_level: 0,
        faces: Vec::new(),
    }
}

fn test_registry() -> Registry {
    let mut reg = Registry::new();
    reg.register_block(block("stone", false));
    reg.register_block(block("water", true));
    reg
}

fn empty_world() -> Chunks {
    Chunks::new(16, 64, -4, -4, 4, 4)
}

/// A world whose chunk (0, 0) has a solid stone floor at voxel height 0.
fn floored_world() -> Chunks {
    let mut chunks = empty_world();
    let mut c = Chunk::new(0, 0, 16, 64);
    for x in 0..16 {
        for z in 0..16 {
            c.set_voxel_local(x, 0, z, STONE);
        }
    }
    c.stage = 1;
    chunks.insert_chunk(c);
    chunks
}

fn default_config() -> WorldConfig {
    WorldConfig::new().build()
}

fn unit_body_at(x: i64, y: i64, z: i64) -> RigidBody {
    RigidBody::new(Aabb::new(x, y, z, x + 1000, y + 1000, z + 1000))
}

#[test]
fn free_fall_one_tick() {
    let chunks = empty_world();
    let reg = test_registry();
    let cfg = default_config();
    let mut body = unit_body_at(0, 10_000, 0);
    Physics::iterate_body(&mut body, 100, &chunks, &reg, &cfg);
    // dv = g * dt = -0.98; drag scales by 1 - 0.1 * 0.1 / 1 = 0.99
    assert_eq!(body.velocity.y, -970);
    assert_eq!(body.velocity.x, 0);
    // the box advanced by v * dt = -0.097
    assert_eq!(body.aabb.min_y, 10_000 - 97);
    assert_eq!(body.forces, Vec3 { x: 0, y: 0, z: 0 });
    assert_eq!(body.impulses, Vec3 { x: 0, y: 0, z: 0 });
    assert_eq!(body.resting, Vec3i { x: 0, y: 0, z: 0 });
}

#[test]
fn zero_tick_changes_nothing() {
    let chunks = empty_world();
    let reg = test_registry();
    let cfg = default_config();
    let mut body = unit_body_at(0, 10_000, 0);
    body.velocity = Vec3 { x: 123, y: -456, z: 789 };
    body.forces = Vec3 { x: 5, y: 6, z: 7 };
    let before = body;
    Physics::iterate_body(&mut body, 0, &chunks, &reg, &cfg);
    assert_eq!(body, before);
}

#[test]
fn static_body_sheds_motion_but_stays_put() {
    let chunks = empty_world();
    let reg = test_registry();
    let cfg = default_config();
    let mut body = unit_body_at(2000, 9000, -3000);
    body.mass = 0;
    body.velocity = Vec3 { x: 500, y: 500, z: 500 };
    body.forces = Vec3 { x: 9, y: 9, z: 9 };
    body.impulses = Vec3 { x: 4, y: 4, z: 4 };
    let before = body.aabb;
    Physics::iterate_body(&mut body, 100, &chunks, &reg, &cfg);
    assert_eq!(body.aabb, before);
    assert_eq!(body.velocity, Vec3 { x: 0, y: 0, z: 0 });
    assert_eq!(body.forces, Vec3 { x: 0, y: 0, z: 0 });
    assert_eq!(body.impulses, Vec3 { x: 0, y: 0, z: 0 });
}

#[test]
fn ground_contact_stops_fall_and_friction_slows() {
    let chunks = floored_world();
    let reg = test_registry();
    let cfg = default_config();
    // the body sits flush on the floor: the floor fills y in [0, 1000)
    let mut body = unit_body_at(0, 1000, 0);
    body.velocity = Vec3 { x: 5000, y: 0, z: 0 };
    body.friction = 500;
    Physics::iterate_body(&mut body, 100, &chunks, &reg, &cfg);
    assert_eq!(body.resting.y, -1);
    assert_eq!(body.velocity.y, 0);
    // no friction yet (no prior contact); only drag acted on x
    assert_eq!(body.velocity.x, 4950);
    let vx1 = body.velocity.x;
    Physics::iterate_body(&mut body, 100, &chunks, &reg, &cfg);
    assert_eq!(body.resting.y, -1);
    assert_eq!(body.velocity.y, 0);
    // now the contact grips: friction has shaved the lateral speed
    assert!(body.velocity.x < vx1 - 400);
    assert!(body.velocity.x > 0);
}

#[test]
fn resting_axes_carry_no_velocity() {
    let chunks = floored_world();
    let reg = test_registry();
    let cfg = default_config();
    let mut body = unit_body_at(1000, 1000, 1000);
    for _ in 0..5 {
        Physics::iterate_body(&mut body, 100, &chunks, &reg, &cfg);
        if body.resting.y != 0 {
            assert_eq!(body.velocity.y, 0);
        }
        if body.resting.x != 0 {
            assert_eq!(body.velocity.x, 0);
        }
        if body.resting.z != 0 {
            assert_eq!(body.velocity.z, 0);
        }
        assert_eq!(body.forces, Vec3 { x: 0, y: 0, z: 0 });
        assert_eq!(body.impulses, Vec3 { x: 0, y: 0, z: 0 });
    }
}

#[test]
fn auto_step_climbs_one_block() {
    let mut chunks = empty_world();
    let mut c = Chunk::new(0, 0, 16, 64);
    for x in 0..16 {
        for z in 0..16 {
            c.set_voxel_local(x, 0, z, STONE);
        }
    }
    // a single-block ledge right in the body's path
    c.set_voxel_local(2, 1, 0, STONE);
    c.stage = 1;
    chunks.insert_chunk(c);
    let reg = test_registry();
    let cfg = default_config();
    let mut body = unit_body_at(1000, 1000, 0);
    body.auto_step = true;
    body.air_drag = Some(0);
    body.velocity = Vec3 { x: 5000, y: 0, z: 0 };
    Physics::iterate_body(&mut body, 100, &chunks, &reg, &cfg);
    assert!(body.stepped);
    // moved the full 0.5 in x, and up a whole block
    assert_eq!(body.aabb.min_x, 1500);
    assert_eq!(body.aabb.min_y, 2000);
}

#[test]
fn buoyancy_in_full_submersion() {
    let mut chunks = empty_world();
    let mut c = Chunk::new(0, 0, 16, 64);
    for x in 0..16 {
        for y in 0..4 {
            for z in 0..16 {
                c.set_voxel_local(x, y, z, WATER);
            }
        }
    }
    c.stage = 1;
    chunks.insert_chunk(c);
    let reg = test_registry();
    let cfg = default_config();
    let mut body = unit_body_at(0, 0, 0);
    Physics::iterate_body(&mut body, 100, &chunks, &reg, &cfg);
    assert!(body.in_fluid);
    assert_eq!(body.ratio_in_fluid, 1000);
    // the (downward) buoyant term g * density * volume joins gravity:
    // a = -19.6 - 9.8, dv = -2.94, and fluid drag scales by 0.96
    assert_eq!(body.velocity.y, -2822);
}

#[test]
fn sweep_reports_bounded_impacts() {
    let chunks = floored_world();
    let reg = test_registry();
    let mut aabb = Aabb::new(0, 1000, 0, 1000, 2000, 1000);
    let mut dx = Vec3 { x: 0, y: -5000, z: 0 };
    let mut resting = Vec3i { x: 0, y: 0, z: 0 };
    let hits = sweep_collide(&chunks, &reg, &mut aabb, &mut dx, &mut resting, 10);
    assert!(hits <= 10);
    assert_eq!(hits, 1);
    assert_eq!(resting.y, -1);
    // the box never sank into the floor
    assert_eq!(aabb.min_y, 1000);
}

#[test]
fn sweep_crosses_empty_space_fully() {
    let chunks = empty_world();
    let reg = test_registry();
    let mut aabb = Aabb::new(0, 5000, 0, 1000, 6000, 1000);
    let mut dx = Vec3 { x: 3300, y: -1700, z: 2900 };
    let mut resting = Vec3i { x: 0, y: 0, z: 0 };
    let hits = sweep_collide(&chunks, &reg, &mut aabb, &mut dx, &mut resting, 10);
    assert_eq!(hits, 0);
    assert_eq!(aabb.min_x, 3300);
    assert_eq!(aabb.min_y, 3300);
    assert_eq!(aabb.min_z, 2900);
    assert_eq!(resting, Vec3i { x: 0, y: 0, z: 0 });
}

#[test]
fn registry_name_lookup_round_trips() {
    let reg = test_registry();
    for b in reg.blocks.iter() {
        let found = reg.get_block_by_name(&b.name);
        assert_eq!(found.id, b.id);
    }
    assert_eq!(reg.get_block_by_name(&"water".to_owned()).id, WATER);
    assert_eq!(reg.get_block_by_name(&"stone".to_owned()).id, STONE);
}

#[test]
fn registry_unknown_lookups_resolve_to_air() {
    let reg = test_registry();
    assert_eq!(reg.get_block_by_id(99).id, 0);
    assert_eq!(reg.get_block_by_name(&"granite".to_owned()).id, 0);
    assert!(!reg.is_solid(0));
    assert!(reg.is_solid(STONE));
    assert!(!reg.is_solid(WATER));
}

#[test]
fn height_map_stage_is_idempotent() {
    let reg = test_registry();
    let cfg = default_config();
    let mut c = Chunk::new(0, 0, 16, 64);
    c.set_voxel_local(3, 0, 4, STONE);
    c.set_voxel_local(3, 7, 4, STONE);
    c.set_voxel_local(5, 2, 5, STONE);
    let stage = HeightMapStage;
    let once = stage.process(c, &reg, &cfg, None);
    let h1 = once.height_map.clone();
    let twice = stage.process(once, &reg, &cfg, None);
    assert_eq!(h1, twice.height_map);
    assert_eq!(twice.get_height_local(3, 4), 7);
    assert_eq!(twice.get_height_local(5, 5), 2);
    assert_eq!(twice.get_height_local(0, 0), 0);
}

#[test]
fn pipeline_orders_stages_by_neighbor_readiness() {
    let mut pipeline = Pipeline::new();
    pipeline.add_stage(None);
    pipeline.add_stage(Some(SpaceRequirements {
        margin: 1,
        needs_voxels: true,
        needs_height_map: false,
        needs_light: false,
    }));
    let mut chunks = empty_world();
    for cx in -1..=1 {
        for cz in -1..=1 {
            chunks.insert_chunk(Chunk::new(cx, cz, 16, 64));
        }
    }
    // every chunk is at its first stage, which needs no context
    assert!(pipeline.is_eligible(&chunks, 0, 0));
    // the center reaches the second stage before its neighbors: not eligible
    let mut center = chunks.remove_chunk(0, 0).unwrap();
    center.stage = 1;
    chunks.insert_chunk(center);
    assert!(!pipeline.is_eligible(&chunks, 0, 0));
    // once all nine have finished the first stage, the center may run
    for cx in -1..=1 {
        for cz in -1..=1 {
            if (cx, cz) != (0, 0) {
                let mut n = chunks.remove_chunk(cx, cz).unwrap();
                n.stage = 1;
                chunks.insert_chunk(n);
            }
        }
    }
    assert!(pipeline.is_eligible(&chunks, 0, 0));
    // the edge chunk still waits for neighbors that are not loaded yet, so
    // only the center is picked
    let cands = vec![ChunkCoords { x: 0, z: 0 }, ChunkCoords { x: 1, z: 1 }];
    let picked = pipeline.select_for_tick(&chunks, &cands, 8);
    assert_eq!(picked.len(), 1);
    assert_eq!(picked[0], ChunkCoords { x: 0, z: 0 });
}

#[test]
fn chunk_map_reads_and_writes() {
    let mut chunks = floored_world();
    assert_eq!(chunks.get_voxel(3, 0, 3), STONE);
    assert_eq!(chunks.get_voxel(3, 1, 3), 0);
    // out of the loaded world or out of range: air
    assert_eq!(chunks.get_voxel(1000, 0, 0), 0);
    assert_eq!(chunks.get_voxel(0, -1, 0), 0);
    assert_eq!(chunks.get_voxel(0, 9999, 0), 0);
    chunks.set_voxel(3, 5, 3, STONE);
    assert_eq!(chunks.get_voxel(3, 5, 3), STONE);
    assert!(chunks.is_chunk_ready(0, 0, 1));
    assert!(!chunks.is_chunk_ready(1, 1, 0));
}

#[test]
fn collisions_are_delivered_to_both_entities() {
    let events = vec![
        ContactEvent { started: true, a: 1, b: 2 },
        ContactEvent { started: false, a: 3, b: 9 },
    ];
    let map = vec![
        HandleBinding { handle: 1, entity: 100 },
        HandleBinding { handle: 2, entity: 200 },
        HandleBinding { handle: 3, entity: 300 },
    ];
    let tags = PhysicsSystem::pair_collisions(&events, &map);
    assert_eq!(tags.len(), 2);
    assert_eq!(tags[0].entity, 100);
    assert_eq!(tags[0].other, 200);
    assert!(tags[0].started);
    assert_eq!(tags[0].event, 0);
    assert_eq!(tags[1].entity, 200);
    assert_eq!(tags[1].other, 100);
    assert_eq!(tags[1].event, 0);
}

#[test]
fn repulsion_of_stacked_bodies_is_bounded_and_biased() {
    let pos = Vec3 { x: 0, y: 0, z: 0 };
    let moved = Vec3 { x: 0, y: 1000, z: 0 };
    let r = PhysicsSystem::repulsion_impulse(pos, moved, 10_000, 5, -7);
    // vertical separation saturates the upward push; the jitter leaks into
    // the horizontal axes
    assert_eq!(r.y, 3000);
    assert_eq!(r.x, 50);
    assert_eq!(r.z, -70);
    // same spot, no push
    let zero = PhysicsSystem::repulsion_impulse(pos, pos, 10_000, 5, -7);
    assert_eq!(zero, Vec3 { x: 0, y: 0, z: 0 });
    // with a drawn jitter the push stays within the clamp and jitter ranges,
    // and a zero draw is nudged so exactly stacked bodies always drift apart
    let rnd = PhysicsSystem::repulse(pos, moved, 10_000);
    assert_eq!(rnd.y, 3000);
    assert!(rnd.x <= 100 && rnd.x >= -100 && rnd.x != 0);
    assert!(rnd.z <= 100 && rnd.z >= -100 && rnd.z != 0);
    // the clamp holds in both directions: a body pushed downward caps at -3.0
    let below = PhysicsSystem::repulsion_impulse(moved, pos, 10_000, 0, 0);
    assert_eq!(below.y, -3000);
}

#[test]
fn integration_is_per_entity_and_gated_on_ready_chunks() {
    let chunks = floored_world();
    let reg = test_registry();
    let cfg = default_config();
    let coords = vec![ChunkCoords { x: 0, z: 0 }, ChunkCoords { x: 2, z: 2 }];
    let mut bodies = vec![unit_body_at(0, 5000, 0), unit_body_at(33_000, 5000, 33_000)];
    let before_second = bodies[1];
    PhysicsSystem::integrate_all(&chunks, &reg, &cfg, 100, 1, &coords, &mut bodies);
    // the body in the ready chunk fell; the other chunk was not ready, so its
    // body was skipped entirely
    assert!(bodies[0].velocity.y < 0);
    assert_eq!(bodies[1], before_second);
}

#[test]
fn world_config_builder_applies_options() {
    let cfg = WorldConfig::new()
        .chunk_size(8)
        .max_height(64)
        .max_clients(7)
        .interval(16)
        .min_chunk(ChunkCoords { x: -5, z: -6 })
        .max_chunk(ChunkCoords { x: 5, z: 6 })
        .max_light_level(12)
        .max_chunk_per_tick(9)
        .max_updates_per_tick(99)
        .max_response_per_tick(2)
        .preload_radius(3)
        .collision_repulsion(500)
        .seed(42)
        .build();
    assert_eq!(cfg.chunk_size, 8);
    assert_eq!(cfg.max_height, 64);
    assert_eq!(cfg.max_clients, 7);
    assert_eq!(cfg.interval, 16);
    assert_eq!(cfg.seed, 42);
    assert_eq!(cfg.gravity, Vec3 { x: 0, y: -9800, z: 0 });
    assert_eq!(cfg.air_drag, 100);
    assert_eq!(cfg.fluid_drag, 400);
    assert_eq!(cfg.fluid_density, 2000);
    assert_eq!(cfg.min_bounce_impulse, 100);
    assert_eq!(cfg.collision_repulsion, 500);
    let init = cfg.get_init_config();
    assert_eq!(init.chunk_size, 8);
    assert_eq!(init.max_height, 64);
    assert_eq!(init.max_light_level, 12);
    assert_eq!(init.min_chunk, ChunkCoords { x: -5, z: -6 });
    assert_eq!(init.max_chunk, ChunkCoords { x: 5, z: 6 });
}

#[test]
fn sleeping_body_stays_asleep_without_gravity() {
    let chunks = empty_world();
    let reg = test_registry();
    let mut cfg = default_config();
    cfg.gravity = Vec3 { x: 0, y: 0, z: 0 };
    let mut body = unit_body_at(0, 5000, 0);
    body.sleep_frame_count = 0;
    let before = body.aabb;
    for _ in 0..3 {
        Physics::iterate_body(&mut body, 100, &chunks, &reg, &cfg);
        assert_eq!(body.aabb, before);
        assert_eq!(body.sleep_frame_count, 0);
        assert_eq!(body.velocity, Vec3 { x: 0, y: 0, z: 0 });
    }
}

#[test]
fn restitution_bounces_impact_back_as_impulse() {
    let chunks = floored_world();
    let reg = test_registry();
    let cfg = default_config();
    let mut body = unit_body_at(0, 1100, 0);
    body.restitution = 500;
    body.velocity = Vec3 { x: 0, y: -4000, z: 0 };
    Physics::iterate_body(&mut body, 100, &chunks, &reg, &cfg);
    // the fall was stopped by a new contact strong enough to bounce
    assert_eq!(body.resting.y, -1);
    assert_eq!(body.velocity.y, 0);
    let j = body.collision.expect("an impact this strong is reported");
    assert!(j.y > 100);
    assert!(body.impulses.y > 0);
}

#[test]
fn world_timer_paces_ticks_without_catch_up() {
    let mut timer = voxelize::server::WorldTimer::new(8, 1000);
    assert!(!timer.due(1004));
    assert!(timer.due(1008));
    assert!(timer.due(1500));
    timer.advance(1500);
    assert!(!timer.due(1503));
    assert_eq!(timer.delta(), 8);
}

#[test]
fn preload_covers_the_square_around_origin() {
    let coords = voxelize::server::preload_coords(2);
    assert_eq!(coords.len(), 25);
    for c in coords.iter() {
        assert!(c.x >= -2 && c.x <= 2);
        assert!(c.z >= -2 && c.z <= 2);
    }
    assert_eq!(voxelize::server::preload_coords(0).len(), 1);
}
