[package]
name = "two_phase_commit"
version = "0.1.0"
edition = "2021"
publish = false

[dependencies]
clap = "4"
ctrlc = "3"
ipc-channel = "0.18"
log = "0.4"
rand = "0.8"
serde = { version = "1", features = ["derive"] }
serde_json = "1"
stderrlog = "0.6"
