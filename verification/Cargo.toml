[package]
name = "sbom_generator"
version = "0.1.0"
edition = "2021"
publish = false

[dependencies]
anyhow = "=1.0.104"
bstr = "=1.13.1"
derive_builder = "=0.20.2"
getopts = "=0.2.24"
regex = "=1.13.1"
reqwest = { version = "=0.12.28", features = ["blocking"] }
# serde-cyclonedx derives serde's traits on its types but does not switch on
# serde's `derive` feature itself: without this line it does not compile.
serde = { version = "=1.0.229", features = ["derive"] }
serde-cyclonedx = "=0.10.0"
serde_json = "=1.0.154"
# The XML grammar that tree-sitter parses descriptors with.
tree-sitter = "=0.22.6"
tree-sitter-xml = "=0.6.4"
walkdir = "=2.5.0"
