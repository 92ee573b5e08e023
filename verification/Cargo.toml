[package]
name = "netm"
version = "0.1.0"
edition = "2021"
publish = false

[dependencies]
anyhow = "1"
bytes = "=1.12.1"
clap = { version = "4", features = ["derive"] }
crossterm = { version = "=0.29.0", features = ["event-stream"] }
etherparse = "=0.21.0"
futures = "0.3"
hostname = "=0.4.2"
if-addrs = "=0.15.0"
ipnet = "=2.12.2"
ipstack = "=1.0.1"
nix = { version = "=0.31.3", features = ["net", "user", "fs", "signal"] }
postcard = { version = "=1.1.3", features = ["use-std"] }
ratatui = "=0.30.2"
serde = { version = "1", features = ["derive"] }
socket2 = { version = "=0.6.5", features = ["all"] }
thiserror = "2"
tokio = { version = "1", features = ["full"] }
tokio-util = { version = "0.7", features = ["codec"] }
toml = "=1.1.8"
tracing = "0.1"
tracing-subscriber = { version = "0.3", features = ["env-filter"] }
tun-rs = { version = "=2.8.16", features = ["async"] }
windows-sys = { version = "=0.61.2", features = ["Win32_Foundation", "Win32_Security", "Win32_System_Threading"] }
