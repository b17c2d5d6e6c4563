[package]
name = "infinite_chess"
version = "0.1.0"
edition = "2021"
publish = false

[dependencies]
arrayvec = "0.7"
once_cell = "1"
rayon = "1"
rustc-hash = "2"
serde = { version = "1", features = ["derive"] }
serde_json = "1"
smallvec = "1"
