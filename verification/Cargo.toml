[package]
name = "chat_input"
version = "0.1.0"
edition = "2021"
publish = false

[dependencies]
classicube-sys = "*"
futures = "*"
