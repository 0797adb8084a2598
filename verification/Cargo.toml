[package]
name = "arch_lint"
version = "0.1.0"
edition = "2021"
publish = false

[dependencies]
glob = "*"
toml = "*"
syn = { version = "*", features = ["full", "visit", "extra-traits"] }
proc-macro2 = { version = "*", features = ["span-locations"] }
quote = "*"
serde = { version = "*", features = ["derive"] }
serde_json = "*"
anyhow = "*"
home = "*"
ignore = "*"
thiserror = "*"
tree-sitter = "*"
tree-sitter-kotlin-ng = "*"
