[package]
name = "launchk"
version = "0.1.0"
edition = "2021"
publish = false

[dependencies]
regex = "1"
cursive = { version = "0.20", default-features = false, features = ["crossterm-backend"] }
plist = "1"
tokio = { version = "1", features = ["rt-multi-thread", "time"] }
notify = "5"
notify-debouncer-mini = "0.2"
log = "0.4"
env_logger = "0.10"
lazy_static = "1"
clearscreen = "2"
sudo = "0.6"
git-version = "0.3"
