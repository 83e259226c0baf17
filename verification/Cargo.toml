[package]
name = "goga"
version = "0.1.0"
edition = "2021"
publish = false

[dependencies]
rocket = { version = "=0.5.2", features = ["json"] }
postgres = { version = "=0.19.14", features = ["with-serde_json-1"] }
r2d2 = "=0.8.10"
r2d2_postgres = "=0.18.2"
serde = "=1.0.229"
serde_json = "=1.0.154"
sapper = "=0.2.0"
sapper_std = "=0.2.1"
