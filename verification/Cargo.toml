[package]
name = "rsagent"
version = "0.1.0"
edition = "2021"
publish = false

[dependencies]
url = "=2.5.8"
urlencoding = "=2.1.3"
serde = { version = "=1.0.229", features = ["derive"] }
serde_json = "=1.0.154"
toml = "=1.1.8"
schemars = "=1.2.3"
clap = { version = "=4.6.7", features = ["derive"] }
tokio = { version = "=1.54.1", features = ["rt-multi-thread", "macros"] }
sysinfo = "=0.33.1"
zbus = "=6.2.1"
zbus_systemd = { version = "=0.26201.0", features = ["systemd1", "zbus-async-tokio"] }
journald-query = "=0.1.1"
aisdk = { version = "=0.5.2", features = ["fireworks-ai"] }
anyhow = "=1.0.104"
thiserror = "=2.0.21"
