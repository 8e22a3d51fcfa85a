[package]
name = "navaltoolbox"
version = "0.9.0"
edition = "2021"
publish = false

[dependencies]
serde = { version = "=1.0.229", features = ["derive"] }
serde_json = "=1.0.154"
log = "=0.4.35"
nalgebra = "0.34"
parry3d-f64 = "0.25"
