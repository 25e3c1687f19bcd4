[package]
name = "gnudb"
version = "0.1.0"
edition = "2021"
publish = false

[dependencies]
smol = "2"
ureq = { version = "3", default-features = false }
discid = "*"
