[package]
name = "dep_session"
version = "0.1.0"
edition = "2021"
publish = false

[dependencies]
blake2 = "0.10"
semver = "=0.9.0"
typed-arena = "1.3"
futures = "0.1"
tokio-core = "0.1"
