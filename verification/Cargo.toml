[package]
name = "quantus_ur"
version = "0.1.0"
edition = "2021"
publish = false

[dependencies]
hex = "=0.4.3"
minicbor = { version = "=2.3.1", features = ["std"] }
ur = "=0.5.2"
ur-parse-lib = { version = "=1.0.9", features = ["std"] }
