[package]
name = "ombrac-mux"
version = "0.1.0"
edition = "2021"
publish = false

[dependencies]
bytes = "1"
rand = "0.8"
tokio = { version = "1", features = ["rt", "sync", "time", "io-util"] }
