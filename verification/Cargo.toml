[package]
name = "lr_physics"
version = "0.1.0"
edition = "2021"
publish = false

[dependencies]
const_soft_float = "=0.1.4"
serde = { version = "=1.0.229", features = ["derive"] }
