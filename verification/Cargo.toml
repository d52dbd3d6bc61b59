[package]
name = "nanokvm"
version = "0.1.0"
edition = "2021"
publish = false

[dependencies]
alsa = "*"
anyhow = "1"
clap = { version = "4", features = ["derive"] }
libc = "0.2"
log = "0.4"
png = "0.18"
thiserror = "2"
v4l = "0.14"
zune-core = "0.5"
zune-jpeg = "0.5"
