[package]
name = "geoff"
version = "0.1.0"
edition = "2021"
publish = false

[dependencies]
sha2 = "*"
pulldown-cmark = { version = "*", default-features = false, features = ["html"] }
serde = { version = "1", features = ["derive"] }
serde_json = "1"
toml = "*"
camino = "*"
clap = { version = "4", features = ["derive"] }
walkdir = "*"
strsim = "*"
tera = { version = "1", default-features = false }
oxigraph = { version = "*", default-features = false }

[dev-dependencies]
tempfile = "*"
