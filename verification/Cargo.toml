[package]
name = "pg_parse"
version = "0.1.0"
edition = "2021"
publish = false

[dependencies]
convert_case = "*"
prost-reflect = "*"
protox = "*"
proc-macro2 = "*"
quote = "*"
