[package]
name = "describe_core"
version = "0.1.0"
edition = "2021"
publish = false

[dependencies]
tokio = { version = "1", features = ["rt-multi-thread", "io-util", "net", "time"] }
once_cell = "1"
native-tls = "0.2"
tokio-native-tls = "0.3"
