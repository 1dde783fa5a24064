[package]
name = "at24cx"
version = "0.1.0"
edition = "2021"
publish = false

[dependencies]
embedded-hal-async = "1"
embedded-storage-async = "0.4"
