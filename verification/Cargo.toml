[package]
name = "owui-lint"
version = "0.1.0"
edition = "2021"
publish = false

[dependencies]
anyhow = "1"
clap = { version = "4", features = ["derive"] }
lsp-server = "0.7"
lsp-types = "0.97"
serde = { version = "1", features = ["derive"] }
serde_json = "1"
ureq = "3"
url = "2"
walkdir = "2"

[dev-dependencies]
tempfile = "3"
