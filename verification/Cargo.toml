[package]
name = "package_server"
version = "0.1.0"
edition = "2021"
publish = false

[dependencies]
actix-web = "*"
actix-files = "*"
actix-web-httpauth = "*"
arc-swap = "*"
base64 = "*"
bcrypt = "*"
config = "*"
env_logger = "*"
futures = "*"
humantime = "*"
libc = "*"
log = "*"
mime = "*"
mime_guess = "*"
notify = "*"
notify-debouncer-full = "*"
once_cell = "*"
roxmltree = "*"
serde = { version = "*", features = ["derive"] }
serde_json = { version = "*", features = ["preserve_order"] }
sha2 = "*"
tar = "*"
unic-langid = "*"
url = "*"
