[package]
name = "socks_redirect"
version = "0.1.0"
edition = "2021"
publish = false

[dependencies]
ctrlc = "3"
fast-socks5 = "0.9"
log = "0.4"
nix = { version = "0.29", features = ["socket", "net"] }
thiserror = "1"
tokio = { version = "1", features = ["full"] }
