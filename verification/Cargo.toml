[package]
name = "kotlin_lsp"
version = "0.1.0"
edition = "2021"
publish = false

[dependencies]
futures = "0.3"
log = "0.4"
serde_json = "1"
tokio = { version = "1", features = ["fs", "io-std", "io-util", "macros", "rt-multi-thread", "sync", "time"] }
tower-lsp = "0.20"
tree-sitter = "0.22"
tree-sitter-kotlin = "0.3"
