[package]
name = "no_thanks"
version = "0.1.0"
edition = "2021"
publish = false

[dependencies]
clap = { version = "4", features = ["derive"] }
mcts = "*"
rand = "0.8"
