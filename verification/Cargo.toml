[package]
name = "mdsite"
version = "0.1.0"
edition = "2021"
publish = false

[dependencies]
comrak = { version = "=0.44.0", default-features = false, features = ["shortcodes"] }
frontmatter-gen = "=0.0.11"
url = "=2.5.8"
log = "=0.4.34"
