[package]
name = "mdbook_quiz"
version = "0.1.0"
edition = "2021"
publish = false

[dependencies]
toml = "0.5"
toml-spanned-value = "*"
markdown = "*"
zspell = "*"
html-escape = "*"
serde_json = "*"
tempfile = "*"
toml_edit = "*"
uuid = { version = "*", features = ["v4"] }
