[package]
name = "rmbg"
version = "0.1.0"
edition = "2021"
publish = false

[dependencies]
image = "*"
mime_guess = "*"
ort = "=2.0.0-rc.13"
