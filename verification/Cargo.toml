[package]
name = "swiftide_integrations"
version = "0.1.0"
edition = "2021"
publish = false

[dependencies]
tree-sitter = "=0.27.1"
tree-sitter-rust = "=0.24.2"
tree-sitter-python = "=0.25.0"
tree-sitter-typescript = "=0.23.2"
tree-sitter-javascript = "=0.25.0"
tree-sitter-ruby = "=0.23.1"
tree-sitter-java = "=0.23.5"
tree-sitter-go = "=0.25.0"
tree-sitter-solidity = "=1.2.13"
tree-sitter-c = "=0.24.2"
tree-sitter-cpp = "=0.23.4"
regex = "=1.13.1"
url = "=2.5.8"
tiktoken-rs = "=0.12.1"
lopdf = "=0.46.0"
serde = { version = "=1.0.229", features = ["derive"] }
serde_json = "=1.0.154"
anyhow = "=1.0.104"
htmd = "*"
