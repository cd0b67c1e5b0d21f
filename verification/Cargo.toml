[package]
name = "orbs_backend"
version = "0.1.0"
edition = "2021"
publish = false

[dependencies]
sha2 = "=0.11.1"
hex = "=0.4.3"
bs58 = "=0.5.1"
k256 = "=0.14.0"
candid = "=0.10.39"
ic-cdk = "=0.18.7"
ic-stable-structures = "=0.7.2"
serde = { version = "=1.0.229", features = ["derive"] }
thiserror = "=2.0.21"
