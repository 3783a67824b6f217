[package]
name = "cigen"
version = "0.1.0"
edition = "2021"
publish = false

[dependencies]
serde = { version = "1", features = ["derive"] }
serde_yaml = "0.9"
serde_json = "1"
regex = "1"
sha2 = "0.10"
minijinja = "2"
anyhow = "1"
miette = "7"
thiserror = "2"
walkdir = "2"
globwalk = "0.9"
tracing = "0.1"
once_cell = "1"
yaml-spanned = "*"

[dev-dependencies]
