[package]
name = "waterrower"
version = "0.1.0"
edition = "2021"
publish = false

[dependencies]
chrono = "=0.4.45"
csv = "=1.4.0"
serialport = { version = "=4.10.1", default-features = false }
structopt = "=0.3.26"
