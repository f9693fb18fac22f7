[package]
name = "fb_console"
version = "0.1.0"
edition = "2021"
publish = false

[dependencies]
noto-sans-mono-bitmap = { version = "=0.3.2", features = ["size_24", "unicode-specials"] }
spin = "=0.12.3"
multiboot2 = "=0.28.0"
