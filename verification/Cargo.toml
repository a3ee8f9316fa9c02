[package]
name = "epub2txt"
version = "0.1.0"
edition = "2021"
publish = false

[dependencies]
ahash = "0.8"
anyhow = "1"
config = { version = "0.15", default-features = false, features = ["toml"] }
phf = { version = "0.11", features = ["macros"] }
quick-xml = { version = "0.38", features = ["serialize"] }
rayon = "1"
serde = { version = "1", features = ["derive"] }
toml_edit = "0.22"
xml-rs = "0.8"
zip = { version = "4", default-features = false, features = ["deflate"] }
