[package]
name = "cargo_crusader"
version = "0.1.0"
edition = "2021"
publish = false

[dependencies]
curl = "0.2"
env_logger = "0.3"
lazy_static = "0.1"
log = "0.3"
rustc-serialize = "0.3"
semver = "0.1"
tempdir = "0.3"
term = "0.2"
threadpool = "0.1"
toml = "0.1"
