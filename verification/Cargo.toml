[package]
name = "discord_gateway"
version = "0.1.0"
edition = "2021"
publish = false

[dependencies]
async-std = "*"
async-tungstenite = { version = "*", features = ["async-std-runtime", "async-native-tls"] }
async-native-tls = "*"
futures-util = "*"
reqwest = "*"
tokio = { version = "*", features = ["rt-multi-thread", "macros", "time"] }
