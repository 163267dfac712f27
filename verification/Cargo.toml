[package]
name = "pyros"
version = "2.0.1"
edition = "2021"
publish = false

[dependencies]
rumqttc = "*"
rand = "*"
java-properties = "*"
clap = { version = "4", features = ["derive"] }
tokio = { version = "1", features = ["rt", "macros", "signal", "process", "io-util", "time"] }
futures = "*"
