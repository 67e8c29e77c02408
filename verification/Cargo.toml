[package]
name = "vim_statusline"
version = "0.1.0"
edition = "2021"
publish = false

[dependencies]
chrono = "=0.4.45"
fern = { version = "=0.5.9", features = ["colored"] }
futures = "=0.1.31"
log = "=0.4.34"
rmp = "=0.8.8"
rmp-rpc = "=0.3.0"
tokio = "=0.1.22"
tokio-file-unix = "=0.5.1"
