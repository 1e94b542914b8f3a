[package]
name = "bleach_injector"
version = "0.1.0"
edition = "2021"
publish = false

[dependencies]
libmath = "*"
vst = "=0.2.1"
