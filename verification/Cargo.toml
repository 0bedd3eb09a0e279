[package]
name = "runloop_core"
version = "0.1.0"
edition = "2021"
publish = false

[dependencies]
tokio = { version = "*", features = ["sync", "rt", "rt-multi-thread", "macros", "time"] }
crossterm = "*"
log = "*"
color-eyre = "*"
serde = "*"
serde_derive = "*"
