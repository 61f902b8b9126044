[package]
name = "swiftfetch"
version = "0.1.0"
edition = "2021"
publish = false

[dependencies]
base64 = "*"
image = "*"
unicode-width = "*"
libc = "*"
rayon = "*"
serde = { version = "*", features = ["derive"] }
toml = "*"
dirs = "*"
shellexpand = "*"
