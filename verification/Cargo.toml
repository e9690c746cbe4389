[package]
name = "databases"
version = "0.1.0"
edition = "2021"
publish = false

[dependencies]
eyre = "=0.6.14"
rustyline = "=9.1.2"
structopt = "=0.3.26"
terminal-menu = "*"
