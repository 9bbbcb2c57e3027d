[package]
name = "tab_bar"
version = "0.1.0"
edition = "2021"
publish = false

[dependencies]
ansi_term = "0.12"
libc = "0.2"
nix = "0.24"
signal-hook = "0.3"
interprocess = "1"

[dependencies.mio]
version = "0.8"
default-features = false
features = ["os-poll", "os-ext"]
