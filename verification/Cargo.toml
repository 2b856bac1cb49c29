[package]
name = "selenium_manager"
version = "0.1.0"
edition = "2021"
publish = false

[dependencies]
directories = "4"
flate2 = "1"
infer = "0.13"
regex = "1"
serde = { version = "1", features = ["derive"] }
serde_json = "1"
tar = "0.4"
zip = { version = "0.6", default-features = false, features = ["deflate"] }
