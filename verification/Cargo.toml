[package]
name = "pullyt"
version = "1.1.0"
edition = "2021"
publish = false

[dependencies]
serde = { version = "1", features = ["derive"] }
ureq = { version = "2", features = ["json"] }
open = "5"
