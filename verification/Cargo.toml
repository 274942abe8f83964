[package]
name = "xfs_win_driver"
version = "0.1.0"
edition = "2021"
publish = false

[dependencies]
am-fs-core = "*"
am-fs-xfs = "*"
anyhow = "1"
clap = { version = "4", features = ["derive"] }
serde = { version = "1", features = ["derive"] }
serde_json = "1"
