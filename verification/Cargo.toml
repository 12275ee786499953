[package]
name = "udp_forwarder"
version = "0.1.0"
edition = "2021"
publish = false

[dependencies]
slog = "2"
tokio = { version = "1", features = ["macros", "net", "rt-multi-thread", "sync", "time"] }
