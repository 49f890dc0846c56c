[package]
name = "protocol"
version = "0.1.0"
edition = "2021"
publish = false

[dependencies]
bytes = "1"
serde = { version = "1", features = ["derive"] }
serde_json = "1"
tokio-util = { version = "0.7", features = ["codec"] }
thiserror = "1"
rkyv = "0.8"
prost = "0.13"
kafka-protocol = "*"
