[package]
name = "dirauth"
version = "0.1.0"
edition = "2021"
publish = false

[dependencies]
base64 = "=0.23.1"
dotenvy = "=0.15.7"
jsonwebtoken = { version = "=11.1.0", default-features = false, features = ["rust_crypto"] }
ldap3 = { version = "=0.12.1", default-features = false, features = ["sync"] }
pwhash = "=1.0.0"
uuid = { version = "=1.27.0", features = ["v4"] }
