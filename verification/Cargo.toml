[package]
name = "gemini"
version = "0.1.0"
edition = "2021"
publish = false

[dependencies]
url = "2"
clap = { version = "4", features = ["derive"] }
colored = "2"
crossterm = "*"
env_logger = "*"
log = "0.4"
native-tls = "0.2"
once_cell = "1"
rpassword = "7"
rustyline = "*"
tempfile = "3"
thiserror = "*"
