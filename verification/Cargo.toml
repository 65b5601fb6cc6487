[package]
name = "starry_signal"
version = "0.1.0"
edition = "2021"
publish = false

[dependencies]
axerrno = "=0.2.2"
axtask = "=0.3.0-preview.3"
axhal = "=0.3.0-preview.3"
axfs = "=0.3.0-preview.3"
arceos_posix_api = "=0.3.0-preview.3"
bitflags = "=2.13.2"
