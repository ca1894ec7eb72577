[package]
name = "glyph_atlas"
version = "0.1.0"
edition = "2021"
publish = false

[dependencies]
etagere = "*"
lru = "*"
rustc-hash = "*"
objc2 = "*"
objc2-foundation = "*"
objc2-metal = "*"
