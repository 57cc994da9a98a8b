[package]
name = "fts_store"
version = "0.1.0"
edition = "2021"
publish = false

[dependencies]
ahash = "*"
mail-parser = "*"
nlp = "*"
serde = { version = "*", features = ["derive"] }
