[package]
name = "phpantom"
version = "0.1.0"
edition = "2021"
publish = false

[dependencies]
tower-lsp = "=0.20.0"
mago-syntax = "=1.0.0"
mago-span = "=1.0.0"
mago-database = "=1.0.0"
# mago-syntax 1.0.0 asks for these with caret versions; holding them at
# 1.0.0 keeps the whole mago family on one release.
mago-php-version = "=1.0.0"
mago-text-edit = "=1.0.0"
mago-reporting = "=1.0.0"
mago-syntax-core = "=1.0.0"
bumpalo = "=3.20.3"
