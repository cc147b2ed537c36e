[package]
name = "godot_rust_cli"
version = "0.1.0"
edition = "2021"
publish = false

[dependencies]
convert_case = "*"
serde = { version = "1", features = ["derive"] }
serde_json = "1"
toml = "0.5"
structopt = "0.3"
colored = "2"
dunce = "1"
chrono = "0.4"
notify = "4"
walkdir = "2"
