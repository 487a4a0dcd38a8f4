[package]
name = "rustfrc"
version = "0.1.0"
edition = "2021"
publish = false

[dependencies]
ndarray-rand = "0.14"
bytemuck = "1"
futures-intrusive = "0.5"
pollster = "0.3"
tokio = { version = "1", features = ["rt", "macros", "sync", "time"] }
wgpu = "0.19"
