[package]
name = "cargo_mutants"
version = "0.1.0"
edition = "2021"
publish = false

[dependencies]
anyhow = "*"
camino = "*"
cargo_metadata = "*"
console = "*"
dirs = "*"
globset = "*"
indicatif = "*"
proc-macro2 = { version = "1", features = ["span-locations"] }
quote = "1"
regex = "*"
serde = { version = "*", features = ["derive"] }
serde_json = "*"
syn = { version = "1", features = ["full"] }
toml = "*"
walkdir = "*"
