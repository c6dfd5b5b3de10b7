[package]
name = "remove_matched_charset"
version = "0.1.0"
edition = "2021"
publish = false

[dependencies]
regex = "=1.13.1"
serde = { version = "=1.0.229", features = ["derive"] }
serde_json = "=1.0.151"
swc_core = { version = "=82.0.0", default-features = false, features = ["common", "ecma_ast"] }
