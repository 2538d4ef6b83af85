[package]
name = "rake"
version = "0.1.0"
edition = "2021"
publish = false

[dependencies]
image = { version = "0.25", default-features = false, features = ["jpeg", "png"] }
rayon = "1"
winapi = { version = "0.3", features = ["winuser", "wingdi", "libloaderapi", "windef", "minwindef"] }
