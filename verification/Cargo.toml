[package]
name = "edbgserver"
version = "0.1.0"
edition = "2021"
publish = false

[dependencies]
nix = { version = "=0.31.3", features = ["signal", "process"] }
gdbstub = "=0.7.10"
aya = "=0.13.1"
aya-log = "=0.2.1"
clap = { version = "=4.6.7", features = ["derive"] }
env_logger = "=0.11.11"
libc = "=0.2.191"
log = "=0.4.35"
tokio = { version = "=1.54.1", features = ["full"] }
procfs = "=0.18.0"
