[package]
name = "diktovani"
version = "0.1.0"
edition = "2021"
publish = false

[dependencies]
arboard = { version = "3.6", default-features = false }
enigo = { version = "0.2", default-features = false, features = ["x11rb"] }
hound = "3.5"
libc = "0.2"
rubato = "0.15"
thiserror = "1"
ureq = "2"
winit = { version = "0.30", default-features = false, features = ["x11", "rwh_06"] }
whisper-rs = "0.13"
objc = "0.2"
cocoa = "0.26"
block = "0.1"
core-foundation = "0.10"
core-foundation-sys = "0.8"
accessibility-sys = "0.1"
