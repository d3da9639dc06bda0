[package]
name = "zstar"
version = "0.1.0"
edition = "2021"
publish = false

[dependencies]
anyhow = "=1.0.104"
clap = { version = "=4.6.7", features = ["derive"] }
crossbeam-channel = "=0.5.17"
dashmap = "=6.2.1"
indicatif = "=0.18.6"
jwalk = "=0.9.0"
libc = "=0.2.191"
num_cpus = "=1.17.0"
serde = { version = "1", features = ["derive"] }
tar = "=0.4.46"
tokio = { version = "=1.54.1", features = ["rt", "sync"] }
tokio-uring = "=0.5.0"
walkdir = "2"
windows-sys = { version = "=0.61.2", features = ["Win32_Foundation", "Win32_Security", "Win32_Storage_FileSystem"] }
zstd = { version = "=0.14.3", features = ["zstdmt"] }
