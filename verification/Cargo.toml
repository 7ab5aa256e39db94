[package]
name = "chunk_linker"
version = "0.1.0"
edition = "2021"
publish = false

[dependencies]
anyhow = "1"
rayon = "1"
rustc-hash = "*"
string_wizard = "*"
sugar_path = "*"
