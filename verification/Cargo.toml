[package]
name = "ai_sentiment_nft"
version = "0.1.0"
edition = "2021"
publish = false

[dependencies]
ed25519-dalek = { version = "2.1.1", default-features = false }
solana-program = "1.18.4"
thiserror = "1.0.58"

[dev-dependencies]
borsh = "1.4.0"
