[package]
name = "inline_globals"
version = "0.1.0"
edition = "2021"
publish = false

[dependencies]
swc_common = "*"
swc_ecma_ast = "*"
swc_ecma_parser = "*"
fnv = "1"
serde = { version = "1", features = ["derive"] }
serde_json = "1"
