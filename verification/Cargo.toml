[package]
name = "tauri_greeter"
version = "0.1.0"
edition = "2021"
publish = false

[dependencies]
base64 = "=0.22.1"
serde = { version = "=1.0.229", features = ["derive"] }
serde_json = "=1.0.154"
libc = "=0.2.191"
dirs = "=7.0.0"
thiserror = "=2.0.21"
glib = "*"
pam-client = "*"
