[package]
name = "flapigen"
version = "0.1.0"
edition = "2021"
publish = false

[dependencies]
heck = "0.3"
itertools = "0.10"
syn = { version = "1", features = ["full"] }
quote = "1"
proc-macro2 = "1"
