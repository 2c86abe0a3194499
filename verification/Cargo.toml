[package]
name = "voronoi_planet"
version = "0.1.0"
edition = "2021"
publish = false

[dependencies]
glam = "0.29"
kiddo = "4.2"
parry3d = "0.17"
rand = "0.8"
rand_chacha = "0.3"
serde = { version = "1", features = ["derive"] }
