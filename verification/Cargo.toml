[package]
name = "taxel"
version = "0.1.0"
edition = "2021"
publish = false

[dependencies]
quick-xml = "*"
csv = "*"
spreadsheet-ods = "*"
anyhow = "*"
clap = "*"
