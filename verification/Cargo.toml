[package]
name = "ausha"
version = "0.1.0"
edition = "2021"
publish = false

[dependencies]
chacha20poly1305 = "0.10"
sha2 = "0.10"
pbkdf2 = "0.12"
getrandom = "0.3"
qrcode = { version = "0.14", default-features = false }
opus = "0.3"
serde = { version = "1", features = ["derive"] }
serde_json = "1"
mdns-sd = "0.13"
libc = "0.2"
jni = "0.21"
android_logger = "0.14"
log = "0.4"
