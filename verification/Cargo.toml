[package]
name = "gitlog"
version = "0.1.0"
edition = "2021"
publish = false

[dependencies]
git2 = { version = "*", default-features = false }
rusqlite = { version = "*", features = ["bundled", "chrono"] }
chrono = "*"
