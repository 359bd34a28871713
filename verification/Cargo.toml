[package]
name = "durer"
version = "0.1.0"
edition = "2021"
publish = false

[dependencies]
image = { version = "*", default-features = false, features = ["png", "jpeg"] }
rand = "0.8"
smallvec = "1"
log = "0.4"
env_logger = "*"
sdl3 = "*"
