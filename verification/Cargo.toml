[package]
name = "rconfig"
version = "0.1.0"
edition = "2021"
publish = false

[dependencies]
basic-toml = "=0.1.10"
cargo_metadata = "=0.18.1"
clap = { version = "=4.6.7", features = ["derive"] }
convert_case = "=0.6.0"
crossterm = "=0.27.0"
linked-hash-map = { version = "=0.5.6", features = ["serde_impl"] }
ratatui = "=0.26.3"
rhai = { version = "=1.27.0", features = ["no_function", "no_index", "no_module", "no_object", "no_time"] }
serde = { version = "=1.0.229", features = ["derive"] }
serde_json = "=1.0.154"
