[package]
name = "vrd"
version = "0.1.0"
edition = "2021"
publish = false

[dependencies]
rand = "0.8.5"
serde = { version = "1", features = ["derive"] }
serde_json = "1"
serde_yml = "*"
toml = "0.8"
serde-big-array = "0.5"
rlg = "*"
dtt = "*"
uuid = { version = "1", features = ["v4"] }
tokio = { version = "1", features = ["rt"] }
