[package]
name = "kafka_encode"
version = "0.1.0"
edition = "2021"
publish = false

[dependencies]
integer-encoding = "3"
uuid = "1"
rand = "0.8"
thiserror = "1"
anyhow = "1"
syn = { version = "1", features = ["full", "extra-traits"] }
quote = "1"
proc-macro2 = "1"
