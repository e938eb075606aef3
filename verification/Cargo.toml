[package]
name = "project"
version = "0.1.0"
edition = "2021"
publish = false

[dependencies]
anyhow = "1.0"
futures = "0.3"
itertools = "0.13"
log = "0.4"
parking_lot = "0.12"
shellexpand = "2.1"
smol = "1.3"
