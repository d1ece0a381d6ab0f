[package]
name = "wasip3"
version = "0.1.0"
edition = "2021"
publish = false

[dependencies]
http = "1"
url = "2"
anyhow = "1"
tokio = { version = "1", default-features = false, features = ["net", "rt"] }
