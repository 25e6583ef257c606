[package]
name = "chess_engine"
version = "0.1.0"
edition = "2021"
publish = false

[dependencies]
chess = "3"
ggez = "0.5"
nalgebra = { version = "0.18", features = ["mint"] }
