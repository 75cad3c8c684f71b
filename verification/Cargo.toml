[package]
name = "tmuxlet-server"
version = "0.2.0"
edition = "2021"
publish = false

[dependencies]
serde = { version = "1", features = ["derive"] }
serde_json = "1"
toml = "0.9"
tiny_http = "0.12"
ctrlc = "3"
rustls = { version = "0.23", default-features = false, features = ["ring", "std", "tls12", "logging"] }
webpki-roots = "0.26"
portable-pty = "0.9"
nix = { version = "0.28", features = ["term"] }
