[package]
name = "neorg_ls"
version = "0.1.0"
edition = "2021"
publish = false

[dependencies]
ropey = { version = "=1.6.1", default-features = false }
url = "=2.5.8"
lsp-server = "=0.10.0"
lsp-types = "=0.95.1"
serde_json = "=1.0.151"
anyhow = "=1.0.104"
log = "=0.4.34"
simplelog = "=0.12.2"
walkdir = "=2.5.0"
