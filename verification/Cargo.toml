[package]
name = "sql_cli"
version = "0.1.0"
edition = "2021"
publish = false

[dependencies]
sqlparser = { version = "*", features = ["serde"] }
serde_json = "*"
serde_yaml = "*"
similar = "*"
colored = "*"
rustyline = "*"
clap = { version = "*", features = ["derive"] }
