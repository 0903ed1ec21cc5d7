[package]
name = "sim1h"
version = "0.1.0"
edition = "2021"
publish = false

[dependencies]
rusoto_core = { version = "=0.42.0", default-features = false, features = ["rustls"] }
rusoto_dynamodb = { version = "=0.42.0", default-features = false, features = ["rustls"] }
uuid = { version = "=0.8.2", features = ["v4"] }
getrandom = "=0.2.17"
