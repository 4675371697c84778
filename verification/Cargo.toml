[package]
name = "prmt"
version = "0.1.0"
edition = "2021"
publish = false

[dependencies]
unicode-width = "=0.2.2"
rayon = "=1.12.0"
lexopt = "=0.3.2"
atty = "=0.2.14"
dirs = "=7.0.0"
libc = "=0.2.190"
toml = "=1.1.7"
gix = "*"

[dev-dependencies]
regex = "=1.13.1"
