[package]
name = "xi_term"
version = "0.1.0"
edition = "2021"
publish = false

[dependencies]
clap = "2"
failure = "0.1"
futures = "0.1"
log = "0.4"
log4rs = "0.8"
tempfile = "3"
termion = "1.5"
tokio = "0.1"
xrl = "0.0"
