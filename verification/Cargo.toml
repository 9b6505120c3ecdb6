[package]
name = "worley_biomes"
version = "0.1.0"
edition = "2021"
publish = false

[dependencies]
bracket-noise = "*"
rand = "=0.9.5"
serde = { version = "1", features = ["derive"] }
tinyvec = { version = "1", features = ["alloc"] }
