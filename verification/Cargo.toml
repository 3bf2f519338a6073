[package]
name = "rustcast"
version = "0.1.0"
edition = "2021"
publish = false

[dependencies]
arboard = "=3.7.0"
block2 = "=0.6.2"
global-hotkey = "=0.9.0"
iced = { version = "=0.14.0", default-features = false, features = ["image-without-codecs", "tokio", "x11"] }
image = { version = "=0.25.10", default-features = false, features = ["png"] }
log = "=0.4.35"
minreq = { version = "=2.14.1", features = ["https"] }
objc2 = "=0.6.5"
objc2-app-kit = "=0.3.2"
objc2-foundation = "=0.3.2"
rayon = "=1.12.0"
serde_json = "=1.0.154"
tokio = { version = "=1.54.1", features = ["rt", "sync", "time"] }
tray-icon = "=0.26.1"
