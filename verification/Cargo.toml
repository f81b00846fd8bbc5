[package]
name = "rogue_grid"
version = "0.1.0"
edition = "2021"
publish = false

[dependencies]
anyhow = "=1.0.104"
bracket-lib = { version = "=0.8.7", default-features = false }
hecs = "=0.11.2"
serde = { version = "=1.0.229", features = ["derive"] }
structopt = "=0.3.26"
thiserror = "=1.0.69"
toml = "=1.1.7"
