[package]
name = "configinator"
version = "0.1.0"
edition = "2021"
publish = false

[dependencies]
itertools = "0.10"
jni = "0.19"
thiserror = "1.0"
toml = "0.5"
