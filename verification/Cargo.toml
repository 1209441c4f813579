[package]
name = "buffered_client"
version = "0.1.0"
edition = "2021"
publish = false

[dependencies]
crossbeam = "0.8"
ctrlc = "3"
tracing = "0.1"
