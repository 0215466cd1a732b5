[package]
name = "german_bstr"
version = "0.1.0"
edition = "2021"

[dependencies]
bstr = "1"
bumpalo = "3"
