[package]
name = "hddfancontrol"
version = "0.1.0"
edition = "2021"
publish = false

[dependencies]
anyhow = "*"
backon = "*"
chrono = { version = "*", features = ["serde"] }
clap = { version = "*", features = ["derive"] }
clap_complete = "*"
clap_mangen = "*"
clap-num = "*"
ctrlc = "*"
flate2 = "*"
humantime = "*"
itertools = "*"
log = "*"
pid = "*"
rev_lines = "*"
serde = { version = "*", features = ["derive"] }
serde_json = "*"
simple_logger = "*"
strum = { version = "*", features = ["derive"] }
thiserror = "*"
