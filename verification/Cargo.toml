[package]
name = "exif_sort"
version = "0.1.0"
edition = "2021"
publish = false

[dependencies]
anyhow = "1"
chrono = "0.4"
clap = { version = "4", features = ["derive"] }
indicatif = "*"
spinoff = "*"
walkdir = "2"
which = "*"
