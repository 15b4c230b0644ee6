[package]
name = "mc_downloader"
version = "0.1.0"
edition = "2021"
publish = false

[dependencies]
chksum = "*"
futures = "*"
reqwest = { version = "*", default-features = false, features = ["blocking", "json"] }
serde = { version = "*", features = ["derive"] }
serde_json = "*"
sha1 = "*"
thiserror = "*"
tokio = { version = "*", features = ["rt-multi-thread"] }
