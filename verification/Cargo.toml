[package]
name = "cam_detect"
version = "0.1.0"
edition = "2021"
publish = false

[dependencies]
anyhow = "=1.0.104"
clap = "=3.2.25"
image = { version = "=0.24.9", default-features = false, features = ["jpeg"] }
ndarray = "0.17"
ort = { version = "=2.0.0-rc.15", default-features = false, features = ["std", "ndarray"] }
rclrust = "=0.0.2"
rclrust-msg = "=0.0.2"
rscam = "=0.5.5"
serde = { version = "=1.0.229", features = ["derive"] }
serde_json = "=1.0.154"
tokio = { version = "=1.54.1", features = ["macros", "rt-multi-thread"] }
