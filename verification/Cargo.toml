[package]
name = "tix"
version = "0.1.0"
edition = "2021"
publish = false

[dependencies]
chrono = "0.4"
chrono-tz = "0.10"
ctrlc = "3"
humantime = "2"
iana-time-zone = "0.1"
libc = "0.2"
notify-rust = "4"
rodio = "*"
serde = { version = "1", features = ["derive"] }
toml = "*"
