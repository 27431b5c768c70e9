[package]
name = "mzfmt"
version = "0.1.0"
edition = "2021"
publish = false

[dependencies]
sqlparser = "*"
structopt = "0.3"
clap = "2"
