[package]
name = "satty"
version = "0.1.0"
edition = "2021"
publish = false

[dependencies]
anyhow = "1"
chrono = "0.4"
femtovg = "0.20"
fontconfig = "0.10"
glow = "0.16"
keycode = "1.0"
relm4 = "0.10"
resource = "0.6"
xdg = "3.0"
