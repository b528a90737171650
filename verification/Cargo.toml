[package]
name = "flexible_time"
version = "0.1.0"
edition = "2021"
publish = false

[dependencies]
time = "=0.3.55"

[dev-dependencies]
time = { version = "=0.3.55", features = ["formatting", "parsing"] }
