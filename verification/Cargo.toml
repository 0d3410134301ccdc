[package]
name = "xsrf"
version = "0.1.0"
edition = "2021"
publish = false

[dependencies]
base64 = "0.13"
rand = "0.8"
subtle = "2"
thiserror = "1"
