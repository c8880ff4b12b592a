[package]
name = "servoctl"
version = "0.1.0"
edition = "2021"
publish = false

[dependencies]
cands_cyphal = { version = "=0.1.36", features = ["usb-ftdi", "drvcan_v1"] }
clap = { version = "=4.6.7", features = ["derive"] }
csv = "=1.4.0"
serde = { version = "=1.0.229", features = ["derive"] }
