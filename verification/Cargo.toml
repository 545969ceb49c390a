[package]
name = "blinder"
version = "0.1.0"
edition = "2021"
publish = false

[dependencies]
winit = "=0.30.13"
pixels = "=0.15.0"
image = "=0.25.10"
inputbot = "=0.6.0"
log = "=0.4.34"
simple-logging = "*"
