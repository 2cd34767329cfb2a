[package]
name = "clap_validator"
version = "0.1.0"
edition = "2021"
publish = false

[dependencies]
textwrap = { version = "=0.16.4", features = ["terminal_size"] }
clap-sys = "=0.5.0"
serde = { version = "=1.0.229", features = ["derive"] }
serde_json = "=1.0.154"
clap = { version = "=4.6.7", features = ["derive"] }
anyhow = "=1.0.104"
yansi = "=1.0.1"
regex-lite = "=0.1.9"
tempfile = "=3.27.0"
wait-timeout = "=0.2.1"
rayon = "=1.12.0"
log = "=0.4.35"
rand = "=0.10.3"
rand_pcg = "=0.10.2"
