[package]
name = "airgap_json_formatter"
version = "0.1.0"
edition = "2021"
publish = false

[dependencies]
aes-gcm = "0.10"
base64 = "0.22"
flate2 = "1"
getrandom = "0.2"
pbkdf2 = "0.12"
sha2 = "0.10"
pulldown-cmark = "*"
quick-xml = "*"
serde_json = "1"
