//! Core of a voxel world simulation: fixed-point math over a millimeter grid,
//! axis-aligned boxes swept through voxel terrain, a rigid-body integrator
//! with buoyancy, friction, drag, auto-stepping and sleep, a block registry,
//! chunked voxel storage, a staged chunk-generation pipeline, and the
//! per-tick decision logic of the physics system.

pub mod aabb;
pub mod config;
pub mod fx;
pub mod physics;
pub mod pipeline;
pub mod registry;
pub mod rigidbody;
pub mod server;
pub mod sweep;
pub mod system;
pub mod vec3;
pub mod voxels;
