[package]
name = "cad_commands"
version = "0.1.0"
edition = "2021"
publish = false

[dependencies]
acadrust = "=0.6.8"
bincode = "=1.3.3"
glam = "=0.29.3"
iced = { version = "=0.14.0", default-features = false, features = ["tiny-skia", "thread-pool", "x11"] }
inventory = "=0.3.25"
rustc-hash = "2"
serde = { version = "1", features = ["derive"] }
