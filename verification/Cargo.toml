[package]
name = "hugin"
version = "0.1.0"
edition = "2021"
publish = false

[dependencies]
clap = "2"
flexi_logger = "*"
log = "0.4"
semver = { version = "1", features = ["serde"] }
serde = { version = "1", features = ["derive"] }
serde_derive = "1"
shellexpand = "3"
tempfile = "3"
toml = "0.5"
zip = { version = "0.6", default-features = false, features = ["deflate"] }

[dev-dependencies]
nom = "7"
