[package]
name = "dbc"
version = "0.1.0"
edition = "2021"
publish = false

[dependencies]
anyhow = "*"
chrono = "*"
colored = "*"
dirs = "*"
oracle = { version = "*", features = ["chrono"] }
postgres = { version = "*", features = ["with-chrono-0_4"] }
prettytable-rs = "*"
rusqlite = { version = "*", features = ["bundled"] }
rustyline = "*"
rustyline-derive = "*"
serde = { version = "*", features = ["derive"] }
serde_yaml = "*"
simple_excel_writer = "*"
structopt = "*"
