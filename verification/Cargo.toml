[package]
name = "libsolver"
version = "0.1.0"
edition = "2021"
publish = false

[dependencies]
capnp = "=0.27.2"
sudoku = "=0.3.2"
rocket = { version = "=0.5.2", features = ["json"] }
serde = { version = "=1.0.229", features = ["derive"] }
serde_json = "=1.0.154"
