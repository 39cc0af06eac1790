[package]
name = "rust_test_core"
version = "0.1.0"
edition = "2021"
publish = false

[dependencies]
serde_json = "1"
syn = { version = "2", features = ["full"] }
quote = "1"
proc-macro2 = "1"
glob = "0.3"
reqwest = { version = "0.12", default-features = false, features = ["blocking"] }
