[package]
name = "notion_markdown"
version = "0.1.0"
edition = "2021"
publish = false

[dependencies]
notion = "=0.6.0"
serde_json = "=1.0.154"
serde_variant = "=0.1.3"
