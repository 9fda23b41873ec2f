[package]
name = "astro_indexer"
version = "0.1.0"
edition = "2021"
publish = false

[dependencies]
quick-xml = "=0.37.5"
lz4_flex = "=0.11.6"
rusqlite = { version = "=0.32.1", features = ["bundled"] }
chrono = "=0.4.45"
walkdir = "=2.5.0"
image = { version = "=0.25.10", default-features = false, features = ["png"] }
base64 = "=0.22.1"
serde = { version = "=1.0.229", features = ["derive"] }
thiserror = "=1.0.69"
tauri = { version = "2", default-features = false }
