[package]
name = "mcdl"
version = "0.1.0"
edition = "2021"
publish = false

[dependencies]
anyhow = "*"
clap = { version = "*", features = ["derive"] }
data-encoding = "*"
directories = "*"
fastrand = "*"
flate2 = "*"
jiff = "*"
reqwest = { version = "*", default-features = false, features = ["json", "rustls-tls"] }
serde = { version = "*", features = ["derive"] }
serde_json = "*"
tar = "*"
tokio = { version = "*", features = ["rt-multi-thread", "macros", "fs", "sync", "time"] }
