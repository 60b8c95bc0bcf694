[package]
name = "ekstre-core"
version = "0.1.0"
edition = "2021"
publish = false

[dependencies]
regex = "=1.13.1"
mail-parser = "=0.11.9"
rusqlite = { version = "=0.41.1", features = ["bundled"] }
serde = { version = "=1.0.229", features = ["derive"] }
serde_json = "=1.0.154"
serde_yaml = "=0.9.34"
pdfium-render = "=0.9.5"
imap = "=2.4.1"
native-tls = "=0.2.18"
keyring = "=3.6.3"
log = "=0.4.29"
