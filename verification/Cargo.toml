[package]
name = "sway_launch"
version = "0.1.0"
edition = "2021"
publish = false

[dependencies]
clap = { version = "4", features = ["derive"] }
clap_complete = "4"
include_dir = "0.7"
regex = "1"
serde = { version = "1", features = ["derive"] }
serde_json = "1"
swayipc = "*"
toml = "*"
