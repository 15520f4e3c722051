[package]
name = "tree_json"
version = "0.1.0"
edition = "2021"
publish = false

[dependencies]
clap = "*"
tree-sitter = "*"
tree-sitter-bash = "*"
tree-sitter-c = "*"
tree-sitter-go = "*"
tree-sitter-html = "*"
tree-sitter-java = "*"
tree-sitter-javascript = "*"
tree-sitter-lua = "*"
tree-sitter-python = "*"
tree-sitter-rust = "*"
tree-sitter-sequel = "*"
tree-sitter-typescript = "*"

[dev-dependencies]
serde_json = "*"
