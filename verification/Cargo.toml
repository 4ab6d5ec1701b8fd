[package]
name = "autocrop"
version = "0.1.0"
edition = "2021"
publish = false

[dependencies]
image = { version = "0.23", default-features = false, features = ["png"] }
eframe = { version = "0.14", features = ["persistence"] }
native-dialog = "0.5"
serde = { version = "1", features = ["derive"] }
