[package]
name = "gallery_sorter"
version = "0.1.0"
edition = "2021"
publish = false

[dependencies]
xxhash-rust = { version = "*", features = ["xxh3"] }
unicode-width = "*"
kamadak-exif = "*"
chrono = "*"
clap = { version = "*", features = ["derive"] }
serde = { version = "*", features = ["derive"] }
serde_json = "*"
toml = "*"
walkdir = "*"
rayon = "*"
filetime = "*"
nix = { version = "*", features = ["user"] }
