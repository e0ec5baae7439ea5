[package]
name = "mister"
version = "0.1.0"
edition = "2021"
publish = false

[dependencies]
mustache = "*"
serde = "*"
serde_derive = "*"
serde_yaml = "*"
structopt = "*"
failure = "*"
exitfailure = "*"
