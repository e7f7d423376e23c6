[package]
name = "cpp_watcher"
version = "0.1.3"
edition = "2021"
publish = false

[dependencies]
chrono = "0.4"
clap = "4"
colored = "2"
ctrlc = "3"
notify = "6"
serde = { version = "1", features = ["derive"] }
serde_yaml = "0.9"
tempfile = "3"
