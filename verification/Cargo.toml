[package]
name = "tezedge_tui"
version = "0.1.0"
edition = "2021"
publish = false

[dependencies]
time = { version = "0.3", features = ["formatting", "parsing", "serde", "macros"] }
clap = { version = "3.0", features = ["derive"] }
tokio = { version = "1", features = ["full"] }
reqwest = { version = "0.11", default-features = false, features = ["json"] }
url = "2"
serde = { version = "1", features = ["derive"] }
serde_json = "1"
serde-aux = "3"
tui = "0.17"
crossterm = "0.22"
slog = "2"
slog-term = "2"
slog-async = "2"
futures-util = "0.3"
tokio-tungstenite = "0.16"
thiserror = "1"
hdrhistogram = "7"
itertools = "0.10"
strum = { version = "0.23", features = ["derive"] }
