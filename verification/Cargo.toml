[package]
name = "makepad_draw"
version = "0.1.0"
edition = "2021"
publish = false

[dependencies]
rustybuzz = "=0.20.1"
makepad-live-id = "=1.0.0"
makepad-vector = "=1.0.0"
