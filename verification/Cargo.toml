[package]
name = "lit_bit_core"
version = "0.1.0"
edition = "2021"
publish = false

[dependencies]
tokio = { version = "1", features = ["rt", "rt-multi-thread", "sync", "time"] }
futures = "0.3"
futures-lite = "2"
async-executor = "1"
parking_lot = "0.12"
serde = { version = "1", features = ["derive"] }
serde_json = "1"
heapless = "0.8"
static_cell = "2"
