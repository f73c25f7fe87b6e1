[package]
name = "cap_core"
version = "0.1.0"
edition = "2021"
publish = false

[dependencies]
ringbuf = "0.4"
sysinfo = { version = "*", default-features = false, features = ["system"] }
bezier_easing = "*"
serde = { version = "1", features = ["derive"] }
serde_json = "1"
thiserror = "*"
tokio = { version = "1", features = ["rt", "sync", "time", "macros"] }
tokio-util = "*"
image = { version = "*", default-features = false, features = ["jpeg"] }
