[package]
name = "rtic_r52"
version = "0.1.0"
edition = "2021"
publish = false

[dependencies]
critical-section = { version = "1", features = ["std"] }
rtic-time = "*"
fugit = "*"
portable-atomic = "1"
aarch32-cpu = "*"
cortex-ar = "*"
proc-macro2 = "1"
quote = "1"
syn = { version = "2", features = ["full"] }
