[package]
name = "rayexec_execution"
version = "0.1.0"
edition = "2021"
publish = false

[dependencies]
erased-serde = "0.4"
futures = "0.3"
half = "2"
num-traits = "0.2"
serde = { version = "1", features = ["derive"] }
