[package]
name = "cuepool"
version = "0.13.0"
edition = "2021"
publish = false

[dependencies]
chrono = "0.4"
rust_decimal = "1"
serde_json = "1"
pathdiff = "0.2"
rosc = "*"
dirs = "*"
egui = "*"
rustjay-lighting = "*"
