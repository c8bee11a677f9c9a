[package]
name = "tsunami"
version = "0.1.0"
edition = "2021"
publish = false

[dependencies]
itertools = "0.8"
rand = "0.7"
failure = "0.1"
futures-util = "0.3"
rusoto_core = "0.42"
rusoto_ec2 = "0.42"
serde = { version = "1", features = ["derive"] }
serde_json = "1"
sessh = "*"
slog = "2"
slog-term = "2"
ssh2 = "*"
tempfile = "3"
