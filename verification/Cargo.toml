[package]
name = "usvg_text"
version = "0.1.0"
edition = "2021"
publish = false

[dependencies]
fontdb = "=0.23.0"
log = "=0.4.35"
png = "=0.18.1"
skrifa = "=0.48.0"
svgtypes = "=0.16.1"
tiny-skia-path = "=0.12.0"
xmlwriter = "=0.1.0"
