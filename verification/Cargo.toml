[package]
name = "gcode_analyzer"
version = "0.1.0"
edition = "2021"
publish = false

[dependencies]
annotate-snippets = "0.11"
serde = { version = "1", features = ["derive"] }
winnow = "0.6"
