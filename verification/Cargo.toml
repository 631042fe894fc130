[package]
name = "rsvg_text"
version = "0.1.0"
edition = "2021"
publish = false

[dependencies]
language-tags = "0.2"
locale_config = "0.3"
markup5ever = "*"
downcast-rs = "*"
cairo-rs = "*"
pango = "*"
