[package]
name = "tango"
version = "0.1.0"
edition = "2021"
publish = false

[dependencies]
byteorder = "1"
zstd = "0.11"
prost = "0.11"
log = "0.4"
egui = "0.19"
egui_extras = "0.19"
arboard = { version = "2", default-features = false }
fluent-templates = "0.8"
unic-langid = "0.9"
