[package]
name = "fuzzy_history"
version = "0.1.0"
edition = "2021"
publish = false

[dependencies]
console = "0.15"
fuzzy-matcher = "0.3"
tantivy = "0.19"
home = "0.5"
ulid = "1"
indoc = "2"
