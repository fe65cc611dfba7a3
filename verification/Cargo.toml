[package]
name = "ld46"
version = "0.1.0"
edition = "2021"
publish = false

[dependencies]
rand = "0.7"
serde = { version = "1", features = ["derive"] }
ctrlc = "3"
geng = { version = "0.5", default-features = false }
