[package]
name = "syntect_assets"
version = "0.1.0"
edition = "2021"
publish = false

[dependencies]
bincode = "=1.3.3"
flate2 = "=1.1.10"
globset = "=0.4.21"
log = "0.4"
once_cell = "=1.21.4"
serde = { version = "=1.0.229", features = ["derive"] }
serde_yaml = "=0.9.34"
syntect = { version = "=5.3.0", default-features = false, features = ["parsing", "regex-fancy", "default-syntaxes", "default-themes", "yaml-load"] }
thiserror = "=1.0.69"
