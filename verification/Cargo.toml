[package]
name = "aspen"
version = "0.1.0"
edition = "2021"
publish = false

[dependencies]
shakmaty = "=0.29.4"
thiserror = "=2.0.21"
oneshot = { version = "=0.2.1", features = ["std"] }
