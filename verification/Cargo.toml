[package]
name = "platz_chart_ext"
version = "0.1.0"
edition = "2021"
publish = false

[dependencies]
serde = { version = "*", features = ["derive"] }
serde_json = "*"
serde_yaml = "*"
jsonlogic-rs = "*"
uuid = { version = "*", features = ["v4", "serde"] }
url = { version = "*", features = ["serde"] }
rust_decimal = "*"
anyhow = "*"
thiserror = "*"
async-trait = "*"
tokio = { version = "*", features = ["fs", "rt", "macros"] }
reqwest = { version = "*", default-features = false, features = ["json"] }
