[package]
name = "boomie"
version = "0.1.0"
edition = "2021"
publish = false

[dependencies]
hound = "3.5"
fastrand = "2"
cpal = "0.15"
