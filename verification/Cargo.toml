[package]
name = "wo"
version = "0.1.0"
edition = "2021"
publish = false

[dependencies]
anyhow = "1"
hex = "0.4"
md-5 = "0.10"
native-tls = "0.2"
postgres = "0.19"
postgres-native-tls = "0.5"
