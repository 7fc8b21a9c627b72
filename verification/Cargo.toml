[package]
name = "depotgamedl"
version = "0.1.0"
edition = "2021"
publish = false

[dependencies]
regex = "1"
zip = { version = "2", default-features = false, features = ["deflate"] }
serde = { version = "1", features = ["derive"] }
serde_json = "1"
reqwest = { version = "0.12", default-features = false, features = ["json", "rustls-tls"] }
tokio = { version = "1", features = ["rt-multi-thread", "macros", "process", "io-util", "time", "fs"] }
dirs = "5"
windows-sys = { version = "0.59", features = ["Win32_Globalization", "Win32_Foundation", "Win32_System_Threading"] }
