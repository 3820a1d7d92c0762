[package]
name = "odus"
version = "0.2.1"
edition = "2021"
publish = false

[dependencies]
anyhow = "1"
libc = "0.2"
nix = { version = "0.29", features = ["fs", "process", "user"] }
pam = "0.7"
pico-args = "0.5"
rpassword = "7"
toml = "0.9"
users = "0.11"
uzers = "0.12"
