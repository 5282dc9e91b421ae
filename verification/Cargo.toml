[package]
name = "glide_wm"
version = "0.1.0"
edition = "2021"
publish = false

[dependencies]
accessibility = "*"
accessibility-sys = "*"
annotate-snippets = { version = "=0.12.17", features = ["testing-colors"] }
anyhow = "1"
core-foundation = "*"
core-graphics = "*"
core-graphics-types = "*"
dirs = "=7.0.0"
livesplit-hotkey = "=0.8.1"
objc2 = "*"
objc2-app-kit = "*"
objc2-core-foundation = "*"
objc2-foundation = "*"
regex = "=1.13.1"
rustc-hash = "=2.1.3"
serde = { version = "1", features = ["derive"] }
sorted-vec = "=0.8.11"
tempfile = "3"
tokio = { version = "1", features = ["sync", "macros", "rt"] }
toml = "=1.1.8"
tracing = "0.1"
