[package]
name = "c64research"
version = "0.1.0"
edition = "2021"
publish = false

[dependencies]
arboard = "3"
cpal = "0.15"
minifb = "0.27"
