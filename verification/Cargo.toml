[package]
name = "good_bug"
version = "0.1.0"
edition = "2021"
publish = false

[dependencies]
itertools = "*"
regex = "*"
serde = { version = "1", features = ["derive"] }
serde_json = "1"
tokio = { version = "1", features = ["full"] }
tokio-stream = { version = "*", features = ["sync"] }
nalgebra = { version = "*", features = ["serde-serialize"] }
config = { version = "*", default-features = false, features = ["toml"] }
eyre = "*"
toml = "*"
anyhow = "1"
ndarray = "*"
sysinfo = "*"
rppal = "*"
linux-embedded-hal = "*"
pwm-pca9685 = "*"
ina219 = "*"
dirs = "*"
