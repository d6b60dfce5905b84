[package]
name = "svg_page"
version = "0.1.0"
edition = "2021"
publish = false

[dependencies]
pdf-writer = "0.12"
svg2pdf = "0.13"
resvg = "0.45"
serde = { version = "1", features = ["derive"] }
