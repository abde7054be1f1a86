[package]
name = "kios_kernel"
version = "0.1.0"
edition = "2021"
publish = false

[dependencies]
crossbeam-queue = "*"
pc-keyboard = "*"
spin = "*"
