[package]
name = "wandering_inn_scraper"
version = "0.1.0"
edition = "2021"
publish = false

[dependencies]
regex = "1"
serde = { version = "1", features = ["derive"] }
serde_json = "1"
rusqlite = "=0.31.0"
reqwest = { version = "=0.11.27", features = ["cookies"] }
tokio = { version = "1", features = ["macros", "rt-multi-thread"] }
soup = "=0.5.1"
epub-builder = "=0.7.4"
image = "=0.24.9"
imageproc = "=0.23.1"
rusttype = "=0.9.3"
color-name = "*"
hex = "0.4"
mail-builder = "=0.3.2"
mail-send = "=0.4.9"
