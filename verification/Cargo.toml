[package]
name = "zkml"
version = "0.1.0"
edition = "2021"
publish = false

[dependencies]
hex = "*"
rmp-serde = "*"
serde = { version = "*", features = ["derive"] }
halo2_proofs = "*"
ndarray = "*"
lazy_static = "*"
