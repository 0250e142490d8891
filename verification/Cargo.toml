[package]
name = "tonerre"
version = "0.1.0"
edition = "2021"
publish = false

[dependencies]
serde_json = "*"
serde_path_to_error = "*"
futures = "*"
tokio = { version = "*", features = ["rt-multi-thread", "macros"] }
