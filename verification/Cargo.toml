[package]
name = "holo_wire"
version = "0.1.0"
edition = "2021"
publish = false

[dependencies]
arbitrary = "1"
bytes = "1"
hex = "0.4"
libfuzzer-sys = { version = "0.4", default-features = false }
