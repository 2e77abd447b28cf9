[package]
name = "quic_monitor"
version = "0.1.0"
edition = "2021"
publish = false

[dependencies]
anyhow = "*"
config = "*"
pcap = "*"
quinn-proto = "*"
rcgen = "*"
rustls = "*"
serde = { version = "*", features = ["derive"] }
