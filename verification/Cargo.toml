[package]
name = "girth"
version = "0.1.0"
edition = "2021"
publish = false

[dependencies]
aead = "0.5"
aes-gcm = "0.10"
base64 = "0.22"
chacha20poly1305 = "0.10"
crc32c = "0.6"
crossbeam-channel = "0.5"
hkdf = "0.12"
hmac = "0.12"
libc = "0.2"
rand_core = { version = "0.6", features = ["getrandom"] }
serde = { version = "1", features = ["derive"] }
serde_json = "1"
sha2 = "0.10"
socket2 = { version = "0.5", features = ["all"] }
windows-sys = { version = "0.59", features = ["Win32_Foundation", "Win32_Networking_WinSock", "Win32_System_IO", "Win32_System_Threading", "Win32_Security"] }
x25519-dalek = { version = "2", features = ["static_secrets"] }
