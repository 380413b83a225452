[package]
name = "tfswitch"
version = "0.1.0"
edition = "2021"
publish = false

[dependencies]
clap = { version = "=4.6.7", features = ["derive", "env"] }
dialoguer = "=0.10.4"
home = "=0.5.12"
reqwest = { version = "=0.11.27", features = ["blocking"] }
semver = "=1.0.28"
zip = { version = "2", default-features = false, features = ["deflate"] }

[dev-dependencies]
regex = "=1.13.1"
