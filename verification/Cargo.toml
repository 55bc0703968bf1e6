[package]
name = "alloy"
version = "0.1.0"
edition = "2021"
publish = false

[dependencies]
anyhow = "=1.0.104"
comrak = { version = "=0.59.0", default-features = false }
dirs = "=7.0.0"
image = { version = "=0.25.10", default-features = false, features = ["png", "jpeg", "gif", "webp", "bmp"] }
pulldown-cmark = { version = "=0.13.6", default-features = false }
ratatui = "=0.30.2"
ratatui-image = { version = "=11.1.0", default-features = false, features = ["crossterm"] }
ratatui-textarea = { version = "=0.8.0", features = ["search"] }
regex = "=1.13.1"
ropey = "=1.6.1"
serde = { version = "=1.0.229", features = ["derive"] }
supports-hyperlinks = "=3.2.0"
syntect = { version = "=5.3.0", default-features = false, features = ["default-fancy"] }
thiserror = "=2.0.21"
toml = "=1.1.8"
tracing = "=0.1.44"
tracing-subscriber = { version = "=0.3.23", features = ["env-filter"] }
ureq = "=3.5.1"
webbrowser = "=1.2.6"

[dev-dependencies]
tempfile = "=3.27.0"
