[package]
name = "astro_helper"
version = "0.1.0"
edition = "2021"
publish = false

[dependencies]
lz4_flex = "*"
ble-peripheral-rust = "*"
env_logger = "*"
gphoto2 = "*"
log = "*"
tokio = { version = "*", features = ["macros", "rt-multi-thread", "sync", "time"] }
uuid = "*"

[dev-dependencies]
bincode = "1"
serde = "*"
