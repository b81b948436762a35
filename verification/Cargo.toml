[package]
name = "fyfth"
version = "0.1.0"
edition = "2021"

[dependencies]
regex = "=1.13.1"
bevy = { version = "=0.14.2", default-features = false }
bevy_egui = { version = "0.28", default-features = false }
