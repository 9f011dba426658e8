[package]
name = "nest"
version = "1.0.0"
edition = "2021"
publish = false

[dependencies]
atomicwrites = "=0.4.4"
indexmap = "=1.9.3"
log = "=0.4.34"
mkdirp = "=1.0.0"
num-traits = "=0.2.19"
serde-hjson = "=0.9.1"
serde_json = { version = "=1.0.154", features = ["preserve_order"] }
serde_yaml = "=0.8.11"
snafu = "=0.6.10"
structopt = "=0.3.26"
toml = { version = "=0.5.11", features = ["preserve_order"] }
