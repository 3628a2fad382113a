[package]
name = "chipster"
version = "0.1.0"
edition = "2021"
publish = false

[dependencies]
tinyrand = "0.5"
clap = { version = "4", features = ["derive"] }
macroquad = "0.4"
