[package]
name = "ma_signals"
version = "0.1.0"
edition = "2021"
publish = false

[dependencies]
log = "=0.4.34"

[dev-dependencies]
libmath = "=0.2.1"
