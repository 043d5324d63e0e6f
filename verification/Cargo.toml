[package]
name = "dprint_core"
version = "0.1.0"
edition = "2021"
publish = false

[dependencies]
bumpalo = "3"
fnv = "1.0"
clap = "2.33"
