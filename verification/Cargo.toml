[package]
name = "sixtyfps_lsp"
version = "0.1.0"
edition = "2021"
publish = false

[dependencies]
serde_json = "*"
lsp-server = "*"
lsp-types = "*"
spin_on = "*"
sixtyfps-compilerlib = "*"
sixtyfps-interpreter = "*"
