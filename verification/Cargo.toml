[package]
name = "cluster_mgr"
version = "0.1.0"
edition = "2021"
publish = false

[dependencies]
indexmap = "2"
configparser = "3"
itertools = "*"
serde = { version = "1", features = ["derive"] }
serde_json = "1"
clap = { version = "4", features = ["derive"] }
dirs = "*"
sysinfo = "*"
users = "*"
anyhow = "1"
thiserror = "*"
tracing = "*"
tracing-subscriber = "*"
tokio = { version = "1", features = ["full"] }
chrono = "*"
indicatif = "*"
prettytable-rs = "*"
local-ip-address = "*"
strum_macros = "*"
crossbeam-channel = "*"
futures = "*"
async-trait = "*"
dyn-clone = "*"
once_cell = "*"
