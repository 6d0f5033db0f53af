[package]
name = "fs_scout"
version = "0.1.0"
edition = "2021"

[dependencies]
proc-macro2 = "1"
quote = "1"
syn = "2"

[dev-dependencies]
regex = "1"
