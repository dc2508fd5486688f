[package]
name = "isoscene"
version = "0.1.0"
edition = "2021"
publish = false

[dependencies]
sha2 = "0.10"
anyhow = "1"
bytes = "1"
image = { version = "0.24", default-features = false, features = ["png"] }
macroquad = "0.3"
rapier3d = "0.11"
reqwest = { version = "0.11", features = ["blocking"] }
serde = { version = "1", features = ["derive"] }
serde_json = "1"
