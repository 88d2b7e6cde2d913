[package]
name = "modem_mux"
version = "0.1.0"
edition = "2021"
publish = false

[dependencies]
at-commands = "*"
embedded-nal = "0.6"
