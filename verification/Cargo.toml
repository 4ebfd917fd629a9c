[package]
name = "node_globals_inject"
version = "0.1.0"
edition = "2021"
publish = false

[dependencies]
serde = { version = "1", features = ["derive"] }
serde_json = "1"
swc_core = { version = "*", features = ["ecma_plugin_transform", "ecma_ast", "ecma_visit", "common"] }
