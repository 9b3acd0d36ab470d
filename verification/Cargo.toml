[package]
name = "block_game_clone_backend"
version = "0.1.0"
edition = "2021"
publish = false

[dependencies]
itertools = "*"
nalgebra = { version = "*", features = ["serde-serialize"] }
serde = { version = "*", features = ["derive"] }
serde_json = "*"
