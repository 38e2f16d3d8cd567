[package]
name = "invoice-ocr-app"
version = "0.3.0"
edition = "2021"
publish = false

[dependencies]
regex = "1"
scraper = "*"
chrono = { version = "0.4", default-features = false, features = ["clock"] }
serde = { version = "1", features = ["derive"] }
serde_json = "1"
rusqlite = { version = "*", features = ["bundled"] }
reqwest = { version = "0.12", default-features = false, features = ["json", "multipart", "rustls-tls"] }
tokio = { version = "1", features = ["fs", "time", "rt-multi-thread", "macros"] }
rust_xlsxwriter = "*"
sha2 = "0.10"
md5 = "0.7"
hex = "0.4"
dirs = "*"
dotenvy = "0.15"
log = "0.4"
thiserror = "*"
image = { version = "*", default-features = false, features = ["png"] }
pdfium-render = "*"
pdfium-auto = "*"
