[package]
name = "hexin"
version = "0.1.0"
edition = "2021"
publish = false

[dependencies]
dirs = "5"
libc = "0.2"
serde = { version = "1", features = ["derive"] }
sysinfo = { version = "0.32", default-features = false, features = ["system"] }
toml = "0.8"
tracing-subscriber = "0.3"
