[package]
name = "wundergraph"
version = "0.1.0"
edition = "2021"
publish = false

[dependencies]
serde = "1"
chrono = "0.4"
juniper = "0.14"
