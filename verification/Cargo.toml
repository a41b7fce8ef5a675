[package]
name = "certified_assets"
version = "0.1.0"
edition = "2021"
publish = false

[dependencies]
base64 = "0.13"
candid = "*"
ic-cdk = "*"
ic-certified-map = "*"
serde = "*"
serde_bytes = "*"
serde_cbor = "*"
sha2 = "*"
