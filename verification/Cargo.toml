[package]
name = "cursor_engine"
version = "0.1.0"
edition = "2021"
publish = false

[dependencies]
serde_json = "*"
xcursor = "*"
resvg = "*"
usvg = "*"
tiny-skia = "*"
fontdb = "*"
toml = "*"
serde = { version = "*", features = ["derive"] }
