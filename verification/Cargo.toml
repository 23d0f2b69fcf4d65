[package]
name = "niri"
version = "0.1.0"
edition = "2021"
publish = false

[dependencies]
xkeysym = "=0.2.1"
knuffel = "=3.2.0"
smithay = { version = "=0.7.0", default-features = false }
csscolorparser = "*"
