[package]
name = "ln_dlc"
version = "0.1.0"
edition = "2021"
publish = false

[dependencies]
anyhow = "=1.0.104"
axum = { version = "=0.6.20", default-features = false, features = ["json"] }
bitcoin = { version = "=0.32.102", features = ["rand-std"] }
bitcoin-coin-selection = { version = "=0.9.0", features = ["rand"] }
clap = { version = "=4.6.7", features = ["derive"] }
diesel = { version = "=2.3.14", features = ["postgres", "r2d2"] }
dlc = "=0.8.0"
dlc-manager = "=0.8.0"
lightning = "0.0.125"
parking_lot = "=0.12.5"
rand = "=0.8.8"
reqwest = { version = "=0.11.27", default-features = false }
rust_decimal = "=1.43.0"
time = "=0.3.55"
tokio = { version = "1", features = ["sync"] }
tracing = "=0.1.44"
