[package]
name = "nirapod_audit_core"
version = "0.1.0"
edition = "2021"
publish = false

[dependencies]
tree-sitter = "*"
tree-sitter-c = "*"
tree-sitter-cpp = "*"
streaming-iterator = "*"
globset = "*"
walkdir = "*"
toml = "*"
serde = { version = "*", features = ["derive"] }
clap = { version = "*", features = ["derive"] }
anyhow = "*"
