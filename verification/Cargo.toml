[package]
name = "icb"
version = "0.1.0"
edition = "2021"
publish = false

[dependencies]
chrono = "0.4"
clap = "2"
crossbeam-channel = "0.5"
crossbeam-utils = "0.8"
failure = "0.1"
termion = "1.5"
tui = "0.8"
unicode-width = "0.1"
