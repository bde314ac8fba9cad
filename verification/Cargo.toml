[package]
name = "vrc_get_vpm"
version = "0.1.0"
edition = "2021"
publish = false

[dependencies]
log = "=0.4.34"
lazy_static = "=1.5.1"
uuid = { version = "=1.27.0", features = ["v4"] }
tokio = { version = "=1.53.2", features = ["process", "time", "rt"] }
winreg = "*"
