[package]
name = "clonk"
version = "0.1.0"
edition = "2021"
publish = false

[dependencies]
chrono = "0.4"
clap = "4"
libc = "0.2"
winapi = "0.2"
kernel32-sys = "0.2"
