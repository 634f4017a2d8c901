[package]
name = "legion-toolkit"
version = "1.0.0"
edition = "2021"
publish = false

[dependencies]
rustix = "1"
serde = { version = "1", features = ["derive"] }
serde_json = "1"
thiserror = "2"
zbus = "5"
zbus_polkit = "5"
logind-zbus = "5"
tokio = { version = "1", features = ["rt", "rt-multi-thread", "macros", "signal", "net", "sync", "time"] }
clap = { version = "4", features = ["derive"] }
futures-util = "0.3"
log = "0.4"
env_logger = "0.11"
ksni = "0.3"
