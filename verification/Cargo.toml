[package]
name = "gdu_core"
version = "0.1.0"
edition = "2021"
publish = false

[dependencies]
itertools = "*"
liblzma = "*"
udisks2 = "*"
gtk4 = { version = "*", features = ["v4_10"] }
libadwaita = { version = "*", features = ["v1_5"] }
gettext-rs = { version = "*", features = ["gettext-system"] }
async-std = "1"
futures = "0.3"
tokio = { version = "1", features = ["sync"] }
async-channel = "2"
async-recursion = "1"
anyhow = "1"
log = "0.4"
env_logger = "*"
nix = { version = "*", features = ["ioctl"] }
libc = "0.2"
systemd = "*"
