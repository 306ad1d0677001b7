[package]
name = "cargo_executable_payload"
version = "0.1.0"
edition = "2021"
publish = false

[dependencies]
anyhow = "1"
atty = "0.2"
base64 = "0.13"
camino = "1"
cargo_metadata = "0.13"
duct = "0.13"
itertools = "0.10"
shell-escape = "0.1"
structopt = "0.3"
tempfile = "3"
termcolor = "1"
which = "4"
