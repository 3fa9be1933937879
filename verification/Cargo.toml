[package]
name = "shuffle_core"
version = "0.1.0"
edition = "2021"
publish = false

[dependencies]
rand = "*"
rand_hc = "*"
rand_isaac = "*"
clap = { version = "*", features = ["derive"] }
color-eyre = "*"
enable-ansi-support = "*"
question = "*"
