[package]
name = "thermal_frame"
version = "0.1.0"
edition = "2021"
publish = false

[dependencies]
anyhow = "=1.0.104"
clap = { version = "=4.6.7", features = ["derive"] }
clap-num = "=1.2.0"
image = { version = "=0.25.10", default-features = false, features = ["jpeg"] }
linux-embedded-hal = "0.3"
mlx9064x = "=0.2.1"
rpmlx90640 = "=0.1.0"
serde = { version = "=1.0.229", features = ["derive"] }
serde_json = "=1.0.154"
