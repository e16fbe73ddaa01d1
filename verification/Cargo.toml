[package]
name = "subxt_gen"
version = "0.1.0"
edition = "2021"
publish = false

[dependencies]
heck = "=0.5.0"
frame-metadata = { version = "=23.0.1", features = ["legacy"] }
parity-scale-codec = "=3.7.5"
hex = "=0.4.3"
serde_json = "=1.0.151"
ureq = { version = "=2.12.1", default-features = false, features = ["json"] }
argh = "=0.1.19"
quote = "=1.0.47"
proc-macro2 = "=1.0.107"
syn = "=1.0.109"
