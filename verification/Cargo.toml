[package]
name = "htmxpress"
version = "0.1.0"
edition = "2021"
publish = false

[dependencies]
http = "1"
proc-macro2 = "1"
syn = { version = "2", features = ["full"] }
urlencoding = "2"
