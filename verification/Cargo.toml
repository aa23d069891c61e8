[package]
name = "midikeys"
version = "0.1.0"
edition = "2021"
publish = false

[dependencies]
anyhow = "1"
clap = "2"
log = "0.4"
midir = "*"
simple_logger = "*"
structopt = "0.3"
termion = "1"
tui = { version = "*", default-features = false, features = ["termion"] }
winit = "0.28"
wmidi = "4"
