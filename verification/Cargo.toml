[package]
name = "credit"
version = "0.1.0"
edition = "2021"
publish = false

[dependencies]
linera-base = "*"
async-graphql = "*"
async-trait = "*"
bcs = "*"
serde = { version = "1", features = ["derive"] }
serde_json = "1"
thiserror = "*"
