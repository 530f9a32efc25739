[package]
name = "plutonian_shores"
version = "0.1.0"
edition = "2021"
publish = false

[dependencies]
rust-fuzzy-search = "*"
termsize = "*"
toml = "*"
duct = "*"
termion = "*"
