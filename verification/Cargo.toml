[package]
name = "voxelize"
version = "0.1.0"
edition = "2021"
publish = false

[dependencies]
crossbeam-channel = "*"
fastrand = "*"
hashbrown = "*"
nalgebra = "*"
rapier3d = "*"
rayon = "*"
serde = { version = "*", features = ["derive"] }
specs = "*"
