[package]
name = "rustowl"
version = "0.1.0"
edition = "2021"
publish = false

[dependencies]
rayon = "1"
serde = { version = "1", features = ["derive"] }
serde_json = "1"
tokio = { version = "1", features = ["full"] }
tokio-util = "0.7"
tower-lsp = "0.20"
clap = { version = "4", features = ["derive", "cargo"] }
clap_complete = "4"
clap_complete_nushell = "*"
cargo_metadata = "*"
log = "0.4"
env_logger = "*"
polonius-engine = "0.13"
tempfile = "3"
process_alive = "*"
