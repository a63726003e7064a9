[package]
name = "slugify_rs"
version = "0.1.0"
edition = "2021"
publish = false

[dependencies]
deunicode = "1"
nanoid = "0.4"
