[package]
name = "warp_foss"
version = "0.1.0"
edition = "2021"
publish = false

[dependencies]
vte = "0.13"
serde = { version = "1", features = ["derive"] }
toml = "0.8"
thiserror = "1"
anyhow = "1"
dirs = "5"
uuid = { version = "1", features = ["v4"] }
winit = "0.30"
wasmtime = "25"
wasmtime-wasi = "25"
tokio = { version = "1", features = ["rt-multi-thread"] }
futures = "0.3"
async-trait = "0.1"
