[package]
name = "editor_core"
version = "0.1.0"
edition = "2021"
publish = false

[dependencies]
unicode-segmentation = "*"
unicode-width = "*"
syntect = { version = "*", default-features = false, features = ["default-fancy"] }
copypasta-ext = "*"
crossterm = "*"
serde = { version = "*", features = ["derive"] }
