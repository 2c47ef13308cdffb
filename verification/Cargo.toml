[package]
name = "session_auth"
version = "0.1.0"
edition = "2021"
publish = false

[dependencies]
sodiumoxide = "=0.2.7"
serde = { version = "=1.0.229", features = ["derive"] }
rocket = { version = "0.5", features = ["json", "uuid", "secrets"] }
diesel = { version = "=1.4.8", features = ["sqlite"] }
