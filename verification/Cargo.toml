[package]
name = "mvm"
version = "0.1.0"
edition = "2021"
publish = false

[dependencies]
queues = "=1.1.0"
enum-map = "=2.7.3"
log = "=0.4.34"
