[package]
name = "nimbuzyn"
version = "0.1.0"
edition = "2021"
publish = false

[dependencies]
argon2 = "=0.5.3"
chrono = "=0.4.45"
password-hash = { version = "=0.5.0", features = ["getrandom"] }
rusqlite = { version = "=0.40.2", features = ["bundled"] }
uuid = { version = "=1.27.0", features = ["v4"] }
