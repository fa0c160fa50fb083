[package]
name = "libappimage"
version = "0.1.0"
edition = "2021"
publish = false

[dependencies]
flate2 = "=1.1.10"
lzma-rs = "=0.3.0"
xz2 = "=0.1.7"
term_size = "=0.3.2"
atty = "=0.2.14"
num_cpus = "=1.17.0"
regex = "=1.13.1"
dirs = "=5.0.1"
libc = "=0.2.191"
signal-hook = "=0.3.18"
lz4 = "=1.28.1"
lzo = "*"
