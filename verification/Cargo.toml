[package]
name = "page_store"
version = "0.1.0"
edition = "2021"
publish = false

[dependencies]
candid = "*"
ciborium = "*"
ic-cdk = "*"
ic_principal = "*"
ic-stable-structures = "*"
lazy_static = "*"
serde = "*"
