[package]
name = "mudssky_utils"
version = "0.1.0"
edition = "2021"
publish = false

[dependencies]
chrono = "*"
dirs = "*"
num_cpus = "*"
once_cell = "*"
rand = "*"
regex = "*"
serde_json = "*"
thiserror = "*"
tokio = { version = "*", features = ["rt", "rt-multi-thread", "time", "sync", "macros"] }
