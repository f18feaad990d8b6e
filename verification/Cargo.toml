[package]
name = "must"
version = "0.1.0"
edition = "2021"
publish = false

[dependencies]
ggez = { version = "=0.9.3", default-features = false }
telnet = "=0.2.5"
vte = "=0.13.1"
