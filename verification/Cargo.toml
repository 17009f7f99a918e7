[package]
name = "valve"
version = "0.1.4"
edition = "2021"
publish = false

[dependencies]
async-trait = "0.1"
axum = "0.6"
deadpool = "0.9"
hyper = { version = "0.14", features = ["client", "http1", "tcp", "runtime"] }
libc = "0.2"
rand = "0.8"
tokio = { version = "1", features = ["full"] }
windows-sys = { version = "0.48", features = ["Win32_Foundation", "Win32_Security", "Win32_System_JobObjects", "Win32_System_Threading"] }
