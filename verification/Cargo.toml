[package]
name = "vdf"
version = "0.1.0"
edition = "2021"
publish = false

[dependencies]
curv-kzen = "=0.10.0"
sha2 = "=0.10.9"
classgroup = "=0.1.0"
hex = "=0.4.3"
serde = { version = "=1.0.229", features = ["derive"] }
serde_json = "=1.0.151"
clap = "=2.34.0"
