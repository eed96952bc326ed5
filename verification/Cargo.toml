[package]
name = "peg_metrics"
version = "0.1.0"
edition = "2021"
publish = false

[dependencies]
hex = "*"
web3 = { version = "*", default-features = false, features = ["http"] }
tokio = { version = "*", features = ["macros", "rt-multi-thread", "fs", "time"] }
actix-web = { version = "*", default-features = false, features = ["macros"] }
serde = { version = "*", features = ["derive"] }
serde_derive = "*"
serde_json = "*"
bigdecimal = "*"
either = "*"
futures-retry = "*"
