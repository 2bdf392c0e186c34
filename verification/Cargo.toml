[package]
name = "ginkgo_dashboard"
version = "0.1.0"
edition = "2021"
publish = false

[dependencies]
base64 = "0.22"
chrono = "0.4"
serde = { version = "1", features = ["derive"] }
serde_json = "1"
thiserror = "2"
exmex = "0.20"
rand = "0.9"
rand_chacha = "0.9"
rand_distr = "0.5"
smol_str = { version = "0.3", features = ["serde"] }
log = "0.4"
clap = { version = "4", features = ["derive"] }
