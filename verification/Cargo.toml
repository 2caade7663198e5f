[package]
name = "markfs"
version = "0.1.0"
edition = "2021"
publish = false

[dependencies]
bincode = "1.3"
fuse = "0.3"
libc = "0.2"
rusqlite = "*"
time = "0.1"
uuid = { version = "1", features = ["v4"] }
