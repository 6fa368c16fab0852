[package]
name = "obmc"
version = "0.1.0"
edition = "2021"
publish = false

[dependencies]
anstyle = "1"
chrono = "0.4"
clap = { version = "4", features = ["derive"] }
eyre = "0.6"
nom-exif = "*"
rayon = "1"
