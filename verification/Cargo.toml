[package]
name = "esphome"
version = "0.1.0"
edition = "2021"
publish = false

[dependencies]
protobuf = "2"
thiserror = "1"
