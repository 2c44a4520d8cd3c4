[package]
name = "pretty_node"
version = "0.1.0"
edition = "2021"
publish = false

[dependencies]
anyhow = "*"
clap = { version = "*", features = ["derive"] }
colored = "*"
flate2 = "*"
reqwest = { version = "*", default-features = false, features = ["json", "rustls-tls"] }
serde = { version = "*", features = ["derive"] }
serde_json = "*"
swc_common = "*"
swc_ecma_ast = "*"
swc_ecma_parser = "*"
tar = "*"
tempfile = "*"
tokio = { version = "*", features = ["macros", "rt-multi-thread", "process", "signal"] }
walkdir = "*"
