[package]
name = "encstr"
version = "0.1.0"
edition = "2021"
publish = false

[dependencies]
arrayvec = "=0.7.8"
bytemuck = { version = "=1.25.2", features = ["must_cast"] }
rand = { version = "=0.9.5", default-features = false }
serde = "=1.0.229"
