[package]
name = "cairo_lang_core"
version = "0.1.0"
edition = "2021"
publish = false

[dependencies]
cairo-lang-casm = "=2.13.1"
cairo-lang-defs = "=2.13.1"
cairo-lang-filesystem = "=2.13.1"
cairo-lang-sierra = "=2.13.1"
cairo-lang-sierra-type-size = "=2.13.1"
cairo-lang-syntax = "=2.13.1"
cairo-lang-utils = "=2.13.1"
itertools = "=0.14.0"
num-bigint = "=0.4.8"
num-traits = "=0.2.19"
salsa = "=0.24.0"
serde = { version = "=1.0.229", features = ["derive"] }
smol_str = "=0.3.7"
typetag = "=0.2.23"
