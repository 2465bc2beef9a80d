[package]
name = "syn_parser"
version = "0.1.0"
edition = "2021"
publish = false

[dependencies]
proc-macro2 = "1"
quote = "1"
ron = "*"
serde = { version = "1", features = ["derive"] }
syn = { version = "2", features = ["full", "visit"] }
uuid = { version = "1", features = ["v5"] }
