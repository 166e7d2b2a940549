[package]
name = "gpui_shell"
version = "0.1.0"
edition = "2021"
publish = false

[dependencies]
reqwest = { version = "*", default-features = false }
rquickjs = { version = "*", features = ["loader"] }
serde_json = "1"
smallvec = "1"
