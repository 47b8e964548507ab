[package]
name = "class_scheduler"
version = "0.1.0"
edition = "2021"
publish = false

[dependencies]
savefile = { version = "*", default-features = false }
savefile-derive = "*"
open = "*"
