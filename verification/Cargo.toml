[package]
name = "fontquant"
version = "0.1.0"
edition = "2021"
publish = false

[dependencies]
skrifa = "=0.48.0"
unicode-script = "=0.5.8"
kurbo = "=0.11.3"
greencurves = "=0.2.1"
skia-safe = "=0.153.3"
clap = { version = "=4.6.7", features = ["derive"] }
rayon = "=1.12.0"
indicatif = "=0.18.6"
