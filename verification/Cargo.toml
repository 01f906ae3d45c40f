[package]
name = "csfx"
version = "0.1.0"
edition = "2021"
publish = false

[dependencies]
base64 = "0.22"
chrono = "0.4"
clap = { version = "4", features = ["derive"] }
colored = "2"
dialoguer = "0.11"
dirs = "5"
rand = "0.8"
reqwest = { version = "0.12", default-features = false, features = ["json", "rustls-tls"] }
rsa = "0.9"
rustyline = "14"
serde = { version = "1", features = ["derive"] }
serde_json = "1"
sha2 = "0.10"
ssh-key = { version = "0.6", features = ["ed25519", "rand_core", "std"] }
tempfile = "3"
tokio = { version = "1", features = ["macros", "rt-multi-thread", "time"] }
uuid = "1"
