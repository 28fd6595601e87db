[package]
name = "testbox"
version = "0.1.0"
edition = "2021"
publish = false

[dependencies]
serde_json = "1"
regex = "1"
rand = "0.9"
url = "2"
clap = "4"
mlua = { version = "0.10", features = ["lua54", "vendored", "serialize"] }
reqwest = { version = "0.12", default-features = false, features = ["blocking"] }
