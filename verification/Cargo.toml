[package]
name = "yaserde"
version = "0.1.0"
edition = "2021"
publish = false

[dependencies]
xml-rs = "0.8"
error-stack = "0.1"
log = "0.4"
syn = "1"
proc-macro2 = "1"
quote = "1"
