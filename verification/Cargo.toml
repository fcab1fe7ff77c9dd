[package]
name = "html2pdf"
version = "0.1.0"
edition = "2021"
publish = false

[dependencies]
base64 = "=0.22.1"
headless_chrome = "=0.9.0"
once_cell = "=1.21.4"
serde = { version = "=1.0.229", features = ["derive"] }
thiserror = "=2.0.21"
