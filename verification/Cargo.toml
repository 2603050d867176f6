[package]
name = "pickaxe"
version = "0.1.0"
edition = "2021"
publish = false

[dependencies]
anyhow = "1"
bitcoin = "0.28"
clap = { version = "3", features = ["derive"] }
hex = "0.4"
jsonrpc = "0.12"
lazy_static = "1"
num-bigint = "0.4"
num_cpus = "1"
rs_merkle = "1"
serde = { version = "1", features = ["derive"] }
tokio = { version = "1", features = ["macros", "rt-multi-thread"] }
