[package]
name = "strudel_clap_plugin"
version = "0.1.0"
edition = "2021"
publish = false

[dependencies]
serde = { version = "=1.0.229", features = ["derive"] }
serde_json = "=1.0.154"
parking_lot = "=0.12.5"
crossbeam-channel = "=0.5.17"
tokio = { version = "=1.54.1", features = ["rt-multi-thread"] }
deno_core = "*"
