[package]
name = "formualizer_workbook"
version = "0.1.0"
edition = "2021"
publish = false

[dependencies]
chrono = "0.4"
formualizer-common = "*"
formualizer-parse = "*"
parking_lot = "0.12"
serde = { version = "1", features = ["derive"] }
serde_json = "1"
wasmparser = "*"
