[package]
name = "openflow"
version = "0.1.0"
edition = "2021"
publish = false

[dependencies]
arboard = "3"
core-graphics = "0.24"
cpal = "0.15"
enigo = "0.2"
parking_lot = "0.12"
whisper-rs = "0.14"
