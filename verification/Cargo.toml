[package]
name = "soundsense_rs"
version = "0.1.0"
edition = "2021"
publish = false

[dependencies]
regex = "1"
crossbeam = "0.8"
crossterm = "0.25"
tui = "0.19"
argh = "0.1"
getopts = "0.2"
dirs = "5"
env_logger = "0.10"
log = "0.4"
