[package]
name = "meter_generic"
version = "0.1.0"
edition = "2021"
publish = false

[dependencies]
tokio-modbus = { version = "0.13", default-features = false, features = ["tcp"] }
