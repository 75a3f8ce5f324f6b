[package]
name = "rusty_crab"
version = "0.1.0"
edition = "2021"
publish = false

[dependencies]
common-game = "*"
crossbeam-channel = "*"
log = "*"
clap = { version = "4", features = ["derive"] }
serde = { version = "1", features = ["derive"] }
config = "*"
fern = { version = "*", features = ["colored"] }
chrono = "*"
