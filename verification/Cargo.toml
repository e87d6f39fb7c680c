[package]
name = "cypherpunk"
version = "0.1.0"
edition = "2021"
publish = false

[dependencies]
base64 = "0.13"
clap = "2"
failure = "0.1"
percent-encoding = "2"
rand = "0.7"
serde = "1"
serde_derive = "1"
serde_json = "1"
structopt = "0.3"
tempfile = "3"

[dev-dependencies]
regex = "1"
