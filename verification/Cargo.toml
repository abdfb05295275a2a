[package]
name = "machined"
version = "0.1.0"
edition = "2021"
publish = false

[dependencies]
anyhow = "1"
async-trait = "0.1"
clap = { version = "4", features = ["derive"] }
fatfs = "0.3"
flate2 = "1"
fscommon = "0.1"
gpt = "3"
hex = "0.4"
hyper-util = { version = "0.1", features = ["tokio"] }
nix = { version = "0.29", features = ["ioctl", "fs"] }
prost = "0.13"
serde = { version = "1", features = ["derive"] }
serde_yaml = "0.9"
sha2 = "0.10"
tar = "0.4"
tempfile = "3"
thiserror = "1"
tokio = { version = "1", features = ["rt-multi-thread", "macros", "net", "time", "sync", "process", "fs"] }
toml = "0.8"
tonic = { version = "0.12", features = ["tls"] }
tower = { version = "0.4", features = ["util"] }
tracing = "0.1"
tracing-subscriber = { version = "0.3", features = ["env-filter"] }
ureq = "2"
