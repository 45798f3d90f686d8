[package]
name = "ak820_ctl"
version = "0.1.0"
edition = "2021"
publish = false

[dependencies]
anyhow = "1"
chrono = { version = "0.4", default-features = false, features = ["clock", "std"] }
clap = { version = "4", features = ["derive"] }
embedded-graphics = "0.8"
hidapi = { version = "2", default-features = false, features = ["linux-native-basic-udev"] }
libc = "0.2"
rusb = { version = "0.9", features = ["vendored"] }
sysinfo = { version = "=0.33.1", default-features = false, features = ["system"] }
