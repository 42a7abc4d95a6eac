[package]
name = "textual_widgets"
version = "0.1.0"
edition = "2021"
publish = false

[dependencies]
rich-rs = "*"
crossterm = "*"
regex = "*"
unicode-segmentation = "*"
open = "*"
