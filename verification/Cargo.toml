[package]
name = "mpack"
version = "0.1.0"
edition = "2021"
publish = false

[dependencies]
clap = { version = "4", features = ["derive"] }
dialoguer = { version = "0.11", features = ["fuzzy-select"] }
indicatif = "0.17"
log = "0.4"
serde = { version = "1", features = ["derive"] }
serde_json = "1"
tempdir = "0.3"
thiserror = "1"
zip = { version = "0.6", default-features = false, features = ["bzip2"] }
