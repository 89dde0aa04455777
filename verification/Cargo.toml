[package]
name = "kychess"
version = "0.1.0"
edition = "2021"
publish = false

[dependencies]
chess = "3.2"
crossbeam-channel = "0.5"
vampirc-uci = { version = "*", features = ["chess"] }
