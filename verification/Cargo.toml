[package]
name = "evtx2bodyfile"
version = "0.1.0"
edition = "2021"
publish = false

[dependencies]
anyhow = "=1.0.104"
chrono = "=0.4.45"
clap = { version = "=4.6.7", features = ["derive"] }
clap-verbosity-flag = "=2.2.3"
evtx = "=0.8.5"
indicatif = "=0.17.11"
log = "=0.4.34"
quick-xml = "=0.36.2"
serde_json = "=1.0.154"
simplelog = "=0.12.2"
