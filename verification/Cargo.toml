[package]
name = "sentireader_rust"
version = "0.1.0"
edition = "2021"
publish = false

[dependencies]
crc = "=3.4.0"
nalgebra = { version = "=0.35.0", features = ["serde-serialize"] }
serde = { version = "*", features = ["derive"] }
serde_yaml = "*"
rmp-serde = "*"
tokio = { version = "*", features = ["net", "rt", "macros", "rt-multi-thread"] }
serialport = "*"
