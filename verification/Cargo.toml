[package]
name = "tau_reducer"
version = "0.1.0"
edition = "2021"
publish = false

[dependencies]
bellman_ce = "0.3.5"
