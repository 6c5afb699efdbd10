[package]
name = "networker-tester"
version = "0.1.0"
edition = "2021"
publish = false

[dependencies]
url = "=2.5.8"
libc = "=0.2.191"
serde_json = "=1.0.154"
x509-parser = "0.16"
sha2 = "0.10"
base64 = "0.22"
