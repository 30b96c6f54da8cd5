[package]
name = "genpdf"
version = "0.1.0"
edition = "2021"
publish = false

[dependencies]
printpdf = { version = "=0.5.3", features = ["embedded_images"] }
lopdf = "=0.26.0"
image = { version = "0.24", default-features = false }
