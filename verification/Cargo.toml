[package]
name = "game-gem"
version = "0.1.0"
edition = "2021"
publish = false

[dependencies]
glam = "*"
quad-rand = "*"
bytemuck = { version = "*", features = ["derive"] }
serde = { version = "*", features = ["derive"] }
