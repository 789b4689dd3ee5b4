[package]
name = "repo_miner"
version = "0.1.0"
edition = "2021"
publish = false

[dependencies]
sha2 = "*"
git2 = "*"
tokei = "*"
chrono = "*"

[dev-dependencies]
serde_json = "*"
