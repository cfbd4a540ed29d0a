[package]
name = "itm"
version = "0.1.0"
edition = "2021"
publish = false

[dependencies]
bitvec = "*"
byteorder = "*"
cortex-m = "*"
anyhow = "*"
structopt = "*"
thiserror = "*"
