[package]
name = "markdownpreview"
version = "0.2.0"
edition = "2021"
publish = false

[dependencies]
pulldown-cmark = "0.11"
tiny_http = "0.12"
notify = "6"
clap = { version = "4", features = ["derive"] }
serde = { version = "1", features = ["derive"] }
serde_json = "1"
ctrlc = "3"
open = "5"
winapi = { version = "0.3", features = ["winuser", "shellapi", "libloaderapi", "windef"] }
