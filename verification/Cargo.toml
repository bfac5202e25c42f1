[package]
name = "cnc_job"
version = "0.1.0"
edition = "2021"
publish = false

[dependencies]
anyhow = "1"
clap = { version = "4", features = ["derive"] }
regex = "1"
rfd = { version = "*", default-features = false, features = ["xdg-portal", "tokio"] }
slint = { version = "1", default-features = false, features = ["compat-1-2", "std"] }
tokio = { version = "1", features = ["full"] }
tokio-serial = { version = "5", default-features = false }
