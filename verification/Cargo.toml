[package]
name = "roshi"
version = "0.1.0"
edition = "2021"
publish = false

[dependencies]
solana-sha256-hasher = { version = "=3.1.0", features = ["sha2"] }
solana-pubkey = { version = "=4.4.0", features = ["curve25519"] }
solana-program-error = "=3.0.1"
solana-instruction = "=4.0.0"
solana-system-interface = "=3.3.0"
wincode = { version = "=0.6.3", features = ["derive"] }
