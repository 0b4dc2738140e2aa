[package]
name = "cyrene"
version = "0.1.0"
edition = "2021"
publish = false

[dependencies]
clap = { version = "4", features = ["derive"] }
console = "0.15"
dialoguer = "0.11"
directories = "5"
env_logger = "0.11"
flate2 = "1"
indicatif = "0.17"
inquire = "0.7"
log = "0.4"
miette = "7"
reqwest = { version = "0.12", default-features = false, features = ["blocking", "json"] }
rune = "0.14"
rune-modules = { version = "0.14", features = ["http", "json"] }
semver = "1"
serde = { version = "1", features = ["derive"] }
symlink = "0.1"
tabled = "0.20"
tar = "0.4"
text-template = "0.1"
thiserror = "2"
toml = "0.8"
xz = "0.1"
