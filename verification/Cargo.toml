[package]
name = "linegrep"
version = "0.1.0"
edition = "2021"
publish = false

[dependencies]
grep-regex = "*"
grep-searcher = "*"
ignore = "*"

[dev-dependencies]
tempfile = "*"
fs-err = "*"
