[package]
name = "xrenew"
version = "0.1.0"
edition = "2021"
publish = false

[dependencies]
url = "=2.5.8"
cookie_store = "=0.22.1"
ua_generator = "=0.5.82"
reqwest = { version = "=0.13.5", default-features = false, features = ["blocking", "cookies", "json"] }
reqwest_cookie_store = "=0.10.0"
sled = "=0.34.7"
bincode = "=2.0.1"
directories = "=6.0.0"
clap = { version = "=4.6.7", features = ["derive"] }
serde = { version = "=1.0.229", features = ["derive"] }
serde_json = "=1.0.151"
chrono = "=0.4.45"
twocaptcha = "=0.0.3"
