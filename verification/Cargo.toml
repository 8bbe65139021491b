[package]
name = "omarchy_hotspot"
version = "0.1.0"
edition = "2021"
publish = false

[dependencies]
qrcode = { version = "=0.14.1", default-features = false }
rand = "=0.10.3"
zeroize = "=1.9.1"
serde = { version = "=1.0.229", features = ["derive"] }
serde_json = "=1.0.154"
toml = "=1.1.8"
anyhow = "=1.0.104"
clap = { version = "=4.6.7", features = ["derive"] }
nix = { version = "=0.31.3", features = ["user", "fs"] }
zbus = { version = "5", default-features = false, features = ["blocking-api", "async-io"] }
rpassword = "7"
