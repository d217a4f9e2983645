[package]
name = "bedrock"
version = "0.1.0"
edition = "2021"
publish = false

[dependencies]
pulldown-cmark = "*"
syntect = { version = "5", default-features = false, features = ["default-syntaxes", "html", "regex-fancy", "parsing"] }
toml_edit = "*"
xxhash-rust = { version = "*", features = ["xxh3"] }
typst = "0.12"
typst-svg = "0.12"
typst-pdf = "0.12"
typst-kit = { version = "0.12", features = ["fonts", "embed-fonts"] }
comemo = "0.4"
ecow = "0.2"
time = "0.3"
serde = { version = "*", features = ["derive"] }
serde_json = "*"
tokio = { version = "*", features = ["io-util"] }
