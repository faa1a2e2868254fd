[package]
name = "wexe"
version = "0.1.0"
edition = "2021"
publish = false

[dependencies]
chrono = { version = "0.4", default-features = false, features = ["std"] }
dirs = "5"
regex = "1"
same-file = "1"
serde = { version = "1", features = ["derive"] }
toml = "0.8"
toml_edit = "0.22"
