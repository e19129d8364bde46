[package]
name = "fsgc"
version = "0.1.0"
edition = "2021"
publish = false

[dependencies]
anyhow = "*"
chrono = "*"
clap = { version = "*", features = ["env"] }
glob = "0.3"
remove_dir_all = "*"
serde = { version = "*", features = ["derive"] }
toml = "*"
