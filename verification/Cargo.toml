[package]
name = "libcheese"
version = "0.1.0"
edition = "2021"
publish = false

[dependencies]
anyhow = "=1.0.104"
clap = { version = "=4.6.7", features = ["derive"] }
ed25519-dalek = "=1.0.1"
k256 = { version = "=0.11.6", features = ["ecdsa", "keccak256"] }
reqwest = { version = "=0.11.27", default-features = false, features = ["json", "rustls-tls"] }
serde = { version = "=1.0.229", features = ["derive"] }
tiny-bip39 = "=1.0.0"
tokio = { version = "=1.54.1", features = ["macros", "rt-multi-thread", "time"] }

[dev-dependencies]
rand = "=0.7.3"
rand_core = { version = "=0.6.4", features = ["getrandom"] }
