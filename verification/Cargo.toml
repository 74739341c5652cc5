[package]
name = "richter"
version = "0.1.0"
edition = "2021"
publish = false

[dependencies]
byteorder = "=1.5.0"
cgmath = "=0.18.0"
chrono = { version = "0.4", default-features = false, features = ["clock", "std"] }
