[package]
name = "voxel"
version = "0.1.0"
edition = "2021"
publish = false

[dependencies]
hashbrown = "=0.14.5"
bytemuck = { version = "1", features = ["derive"] }
