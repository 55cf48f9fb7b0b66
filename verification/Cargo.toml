[package]
name = "riker-cqrs"
version = "0.1.0"
edition = "2021"
publish = false

[dependencies]
config = "0.9"
log = "0.4"
riker = "=0.1.9"
