[package]
name = "mdbook_tectonic"
version = "0.1.0"
edition = "2021"
publish = false

[dependencies]
pulldown-cmark = "=0.9.6"
pulldown-cmark-to-cmark = "=11.2.0"
cmark2tex = "=0.4.0-beta.1"
fs-err = "=3.3.2"
semver = "=1.0.28"
mdbook = { version = "=0.4.52", default-features = false }
serde = { version = "=1.0.229", features = ["derive"] }
color-eyre = "=0.6.5"
which = "=8.0.6"
