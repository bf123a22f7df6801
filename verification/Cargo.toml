[package]
name = "rustybuzz"
version = "0.1.1"
edition = "2021"
publish = false

[dependencies]
ttf-parser = "*"
unicode-script = "*"
unicode-general-category = "*"
unicode-ccc = "*"
unicode-normalization = "*"
unicode-bidi-mirroring = "*"
