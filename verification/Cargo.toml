[package]
name = "bracket_colorizer"
version = "0.1.0"
edition = "2021"
publish = false

[dependencies]
anyhow = "*"
ropey = "*"
serde = { version = "*", features = ["derive"] }
rmp-serde = "*"
tree-sitter = "*"
tree-sitter-go = "*"
tree-sitter-java = "*"
tree-sitter-javascript = "*"
tree-sitter-python = "*"
tree-sitter-rust = "*"
tree-sitter-typescript = "*"
tree-sitter-highlight = "*"
