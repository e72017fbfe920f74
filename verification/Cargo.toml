[package]
name = "smb_io"
version = "0.1.0"
edition = "2021"
publish = false

[dependencies]
aes = "0.8"
cmac = "0.7"
getrandom = "0.3"
hmac = "0.12"
jni = "*"
md-5 = "0.10"
md4 = "0.10"
sha2 = "0.10"
subtle = "2"
tokio = { version = "1", features = ["io-util", "macros", "net", "rt-multi-thread", "sync", "time"] }
zeroize = "1"
