[package]
name = "rspack_hooks"
version = "0.1.0"
edition = "2021"
publish = false

[dependencies]
anyhow = "1"
napi = "2"
napi-derive = "2"
once_cell = "1"
rayon = "1"
serde = { version = "1", features = ["derive"] }
swc_common = "*"
