[package]
name = "rusted_wheel"
version = "0.1.0"
edition = "2021"
publish = false

[dependencies]
uuid = { version = "1", features = ["v4"] }
ws = "0.9"
time = "0.1"
iron = "0.6"
mount = "0.4"
staticfile = "0.5"
