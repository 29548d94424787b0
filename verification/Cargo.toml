[package]
name = "voxel_terrain"
version = "0.1.0"
edition = "2021"
publish = false

[dependencies]
bevy = { version = "0.13", default-features = false }
bevy_rapier3d = { version = "0.25", default-features = false, features = ["dim3"] }
noise = "0.8"
