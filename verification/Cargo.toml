[package]
name = "ion_cli"
version = "0.1.0"
edition = "2021"
publish = false

[dependencies]
anyhow = "=1.0.104"
clap = { version = "=4.6.7", features = ["cargo"] }
convert_case = "=0.6.0"
ion-rs = { version = "=1.1.0", features = ["experimental-reader-writer", "experimental-tooling-apis"] }
itertools = "=0.13.0"
tempfile = "=3.27.0"
termcolor = "=1.4.1"
wasm-bindgen = "=0.2.129"
