[package]
name = "rust_dos"
version = "0.1.0"
edition = "2021"
publish = false

[dependencies]
iced-x86 = "1"
serde = { version = "1", features = ["derive"] }
serde_json = "1"
tokio = { version = "1", features = ["full"] }
axum = { version = "*", features = ["ws"] }
base64 = "*"
png = "*"
chrono = "0.4"
sdl2 = "*"
