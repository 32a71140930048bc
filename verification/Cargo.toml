[package]
name = "extobadges"
version = "0.1.0"
edition = "2021"
publish = false

[dependencies]
anyhow = "1"
badges = "*"
pico-args = "*"
select = "*"
serde = { version = "1", features = ["derive"] }
toml = "*"
ureq = "2"
