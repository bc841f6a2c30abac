[package]
name = "praetore_core"
version = "0.1.0"
edition = "2021"
publish = false

[dependencies]
hex = "0.4"
serde = { version = "1", features = ["derive"] }
serde_json = "1"
sha2 = "0.10"
thiserror = "2"
time = { version = "0.3", features = ["parsing", "formatting"] }
uuid = { version = "1", features = ["v4", "serde"] }
