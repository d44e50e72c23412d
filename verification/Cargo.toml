[package]
name = "dovi_meta"
version = "0.1.0"
edition = "2021"
publish = false

[dependencies]
anyhow = "*"
chrono = "*"
clap = { version = "*", features = ["derive"] }
dolby_vision = "*"
itertools = "*"
quick-xml = { version = "*", features = ["serialize"] }
serde = { version = "*", features = ["derive"] }
uuid = { version = "*", features = ["v4"] }
vtc = "*"
