[package]
name = "pitgun_racing"
version = "0.1.0"
edition = "2021"
publish = false

[dependencies]
md-5 = "0.10"
rand = "0.8"
serde = { version = "1", features = ["derive"] }
serde_json = "1"
thiserror = "2"
