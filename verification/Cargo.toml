[package]
name = "swb"
version = "0.1.0"
edition = "2021"
publish = false

[dependencies]
async-stream = "*"
async-trait = "*"
base64 = "*"
chrono = "*"
clap = { version = "*", features = ["derive"] }
ctrlc = "*"
directories = "*"
ezsockets = "*"
futures = "*"
rand = "*"
rusty_enet = "*"
serde = { version = "*", features = ["derive"] }
serde_json = "*"
thiserror = "*"
tokio = { version = "*", features = ["full"] }
tokio-stream = "*"
tokio-tungstenite = "*"
tokio-util = "*"
tracing = "*"
tracing-subscriber = { version = "*", features = ["env-filter"] }
url = "*"
