[package]
name = "zeek_language_server"
version = "0.1.0"
edition = "2021"
publish = false

[dependencies]
eyre = "0.6"
itertools = "0.10"
log = "0.4"
tokio = { version = "1", features = ["io-std", "macros", "process", "rt-multi-thread"] }
tower-lsp = "0.15"
tracing = "0.1"
tree-sitter = "0.20"
walkdir = "2"

[dev-dependencies]
tree-sitter-json = "0.20"
