[package]
name = "leyline"
version = "0.1.0"
edition = "2021"
publish = false

[dependencies]
alacritty_terminal = "0.25"
clap = { version = "4", features = ["derive"] }
crossbeam-channel = "0.5"
regex-automata = "0.4"
rustix = { version = "1", features = ["system", "event", "fs"] }
serde = { version = "1", features = ["derive"] }
signal-hook = "0.3"
toml = "0.9"
tracing = "0.1"
tracing-subscriber = "0.3"
unicode-segmentation = "1"
zbus = "5"
