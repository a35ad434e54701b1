[package]
name = "pictochat_rs"
version = "0.1.0"
edition = "2021"
publish = false

[dependencies]
byteorder = "=1.5.0"
bytes = "=1.12.1"
ieee80211 = "0.1"
rand = "=0.8.8"
utf16string = "=0.2.0"
serde = { version = "=1.0.229", features = ["derive"] }
rmp-serde = "=1.3.1"
log = "=0.4.35"
esp-idf-sys = "0.34"
esp-idf-hal = "0.43"
esp-idf-svc = "0.48"
embedded-svc = "0.27"
