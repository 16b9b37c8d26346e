[package]
name = "texmodbot"
version = "0.1.0"
edition = "2021"
publish = false

[dependencies]
srp = "=0.6.0"
sha2 = "=0.10.9"
rand = "=0.8.8"
clap = { version = "=4.6.7", features = ["derive"] }
futures-util = "=0.3.34"
tokio = { version = "=1.54.1", features = ["rt-multi-thread", "macros", "time", "signal"] }
