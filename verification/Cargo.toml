[package]
name = "tuot"
version = "0.1.0"
edition = "2021"
publish = false

[dependencies]
rand = "0.8"
tobj = "4"
image = { version = "0.24", default-features = false, features = ["png", "jpeg"] }
glam = "0.22"
sdfu = "0.3"
rayon = "1"
