[package]
name = "mono"
version = "0.1.0"
edition = "2021"
publish = false

[dependencies]
glob = "0.3"
ignore = "0.4"
log = "0.4"
serde = { version = "1", features = ["derive"] }
serde_yaml = "0.9"
stderrlog = "0.5"
structopt = "0.3"
thiserror = "1"
