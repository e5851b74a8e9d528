[package]
name = "vanity_gen"
version = "0.1.0"
edition = "2021"
publish = false

[dependencies]
ed25519-dalek = "2"
fd_bs58 = "*"
num_cpus = "1"
rand = "0.8"
rand_chacha = "0.3"
serde = { version = "1", features = ["derive"] }
serde_json = "1"
