[package]
name = "mojo_arena"
version = "0.1.0"
edition = "2021"
publish = false

[dependencies]
sha2 = "*"
ed25519-dalek = "*"
getrandom = "*"
serde_json = "*"
serde = { version = "*", features = ["derive"] }

[dev-dependencies]
bs58 = "*"
