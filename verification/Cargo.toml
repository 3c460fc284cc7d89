[package]
name = "three_rs"
version = "0.1.0"
edition = "2021"
publish = false

[dependencies]
bytemuck = { version = "=1.25.2", features = ["extern_crate_alloc"] }
png = "=0.18.1"
wgpu = { version = "=30.0.1", features = ["noop"] }
pollster = "0.4"
