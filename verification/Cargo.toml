[package]
name = "meshchat"
version = "0.1.0"
edition = "2021"
publish = false

[dependencies]
chrono = "0.4"
ringmap = "*"
iced = { version = "*", default-features = false, features = ["tiny-skia", "thread-pool", "x11"] }
