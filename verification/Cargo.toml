[package]
name = "i3_helper"
version = "0.1.0"
edition = "2021"
publish = false

[dependencies]
anyhow = "1"
libc = "0.2"
signal-hook = "0.3"
swayipc = "3"
