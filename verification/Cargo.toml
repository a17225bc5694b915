[package]
name = "autoclicker"
version = "0.1.0"
edition = "2021"
publish = false

[dependencies]
rand = "0.8"
clap = "2"
crossbeam-channel = "0.5"
enigo = "0.1"
inputbot = "0.5"
