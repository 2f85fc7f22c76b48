[package]
name = "zeiver"
version = "0.1.0"
edition = "2021"
publish = false

[dependencies]
select = "*"
regex = "*"
urlencoding = "*"
reqwest = { version = "*", default-features = false }
tokio = { version = "*", features = ["rt", "macros", "time", "fs", "io-util"] }
clap = { version = "4", features = ["derive"] }
colored = "*"
rand = "*"
serde = { version = "*", features = ["derive"] }
serde_json = "*"
mime = "*"
bytes = "*"
