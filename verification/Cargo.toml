[package]
name = "diskann3_bench"
version = "0.1.0"
edition = "2021"
publish = false

[dependencies]
anyhow = "1"
bytemuck = "1"
diskann = "=0.53.0"
diskann-disk = "=0.53.0"
diskann-providers = "=0.53.0"
diskann-utils = "=0.53.0"
diskann-vector = "=0.53.0"
rayon = "1"
serde = { version = "1", features = ["derive"] }
serde_json = "1"
