[package]
name = "target_aliases"
version = "0.1.0"
edition = "2021"
publish = false

[dependencies]
indexmap = "2"
itertools = "*"
anyhow = "1"
thiserror = "1"
plist = "1"
serde = { version = "1", features = ["derive"] }
