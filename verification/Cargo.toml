[package]
name = "lox"
version = "0.1.0"
edition = "2021"
publish = false

[dependencies]
ansi_term = "*"
dirs = "*"
rustyline = "*"
structopt = "0.3"
