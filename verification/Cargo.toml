[package]
name = "interp"
version = "0.1.0"
edition = "2021"
publish = false

[dependencies]
ahash = "*"
calyx-frontend = "*"
calyx-ir = "*"
calyx-utils = "*"
itertools = "*"
linked-hash-map = "*"
parking_lot = "*"
serde = { version = "1", features = ["derive"] }
serde_json = "1"
smallvec = "*"
