[package]
name = "stag"
version = "0.1.0"
edition = "2021"
publish = false

[dependencies]
rusqlite = { version = "*", features = ["bundled"] }
anyhow = "*"
clap = { version = "*", features = ["derive"] }
directories = "*"
ignore = "*"
mime_guess = "*"

[dev-dependencies]
tempfile = "*"
