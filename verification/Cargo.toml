[package]
name = "nifty"
version = "0.1.0"
edition = "2021"
publish = false

[dependencies]
anyhow = "=1.0.104"
base64 = "=0.22.1"
brotli = "=9.1.1"
glob = "=0.3.4"
glob-match = "=0.2.1"
minifier = "=0.4.0"
oxc_allocator = "=0.143.0"
oxc_ast = "=0.143.0"
oxc_parser = "=0.143.0"
oxc_span = "=0.143.0"
rayon = "=1.12.0"
regex = "=1.13.1"
serde_json = "=1.0.154"
walkdir = "=2.5.0"
