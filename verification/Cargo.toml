[package]
name = "proof_of_sql"
version = "0.1.0"
edition = "2021"
publish = false

[dependencies]
bumpalo = "3"
num-traits = "0.2"
serde = { version = "1", features = ["derive"] }
