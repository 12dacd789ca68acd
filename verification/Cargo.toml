[package]
name = "mcguffin_quest"
version = "0.1.0"
edition = "2021"
publish = false

[dependencies]
bracket-lib = "0.8"
specs = { version = "0.20", features = ["serde"] }
serde = { version = "1", features = ["derive"] }
