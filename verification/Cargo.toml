[package]
name = "gpui2"
version = "0.1.0"
edition = "2021"
publish = false

[dependencies]
anyhow = "1"
parking_lot = "0.11"
core-graphics = "0.22"
foreign-types = "0.3"
