[package]
name = "opensokoban"
version = "0.1.0"
edition = "2021"
publish = false

[dependencies]
macroquad = "=0.4.16"
egui = "=0.31.1"
egui-macroquad = "=0.17.3"
image = { version = "=0.25.10", default-features = false, features = ["png"] }
open = "=5.4.5"
