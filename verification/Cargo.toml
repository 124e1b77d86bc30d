[package]
name = "terminal_velocity"
version = "0.1.0"
edition = "2021"
publish = false

[dependencies]
pulldown-cmark = "*"
syntect = { version = "*", default-features = false, features = ["default-fancy"] }
tera = "*"
serde_json = "*"
actix-web = "*"
actix-files = "*"
clap = { version = "*", features = ["derive"] }
console = "*"
git2 = { version = "*", default-features = false }
indicatif = "*"
notify = "*"
reqwest = { version = "*", default-features = false, features = ["json"] }
serde = { version = "*", features = ["derive"] }
shell-words = "*"
tokio = { version = "*", features = ["rt-multi-thread", "macros"] }
chrono = "*"
thiserror = "*"
walkdir = "*"
