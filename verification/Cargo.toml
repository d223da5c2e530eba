[package]
name = "thumbnail_cacher"
version = "0.1.0"
edition = "2021"
publish = false

[dependencies]
dirs = "*"
image = { version = "0.25", default-features = false }
log = "0.4"
md-5 = "0.10"
png = "0.18"
tempfile = "3"
url = "2"
walkdir = "2"
