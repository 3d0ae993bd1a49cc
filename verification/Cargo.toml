[package]
name = "bevy_openusd"
version = "0.1.0"
edition = "2021"
publish = false

[dependencies]
anyhow = "1"
glam = "0.30"
openusd = "0.3"
rapier3d-f64 = "0.32"
