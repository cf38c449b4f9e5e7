[package]
name = "jazzlight"
version = "0.1.0"
edition = "2021"
publish = false

[dependencies]
byteorder = "=1.5.0"
fnv = "1"
hashlink = "=0.12.2"
structopt = "=0.3.26"
