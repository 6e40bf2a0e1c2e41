[package]
name = "deliriuum"
version = "0.1.0"
edition = "2021"
publish = false

[dependencies]
base64 = "0.22"
x25519-dalek = { version = "2", features = ["static_secrets"] }
boringtun = "0.7"
libc = "0.2"
rand = "0.8"
reqwest = { version = "0.12", default-features = false, features = ["json"] }
serde = { version = "1", features = ["derive"] }
serde_json = "1"
keyring = "3"
windows-sys = { version = "0.59", features = ["Win32_Foundation", "Win32_Security", "Win32_Security_Authorization", "Win32_Storage_FileSystem", "Win32_System_Pipes", "Win32_System_Services", "Win32_System_LibraryLoader", "Win32_System_IO"] }
