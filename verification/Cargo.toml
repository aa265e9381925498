[package]
name = "githist"
version = "0.1.0"
edition = "2021"
publish = false

[dependencies]
rusqlite = { version = "*", features = ["bundled"] }
git2 = { version = "*", default-features = false }
