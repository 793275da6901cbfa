[package]
name = "nix_template"
version = "0.1.0"
edition = "2021"
publish = false

[dependencies]
version-compare = "0.0.11"
clap = "2"
serde = { version = "1", features = ["derive"] }
serde_json = "1"
serde_path_to_error = "0.1"
reqwest = { version = "0.11", default-features = false, features = ["blocking", "rustls-tls"] }
toml = "0.5"
xdg = "2"
log = "0.4"
env_logger = "0.9"
