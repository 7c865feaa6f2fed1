[package]
name = "starina"
version = "0.1.0"
edition = "2021"
publish = false

[dependencies]
vm-fdt = "*"
serde = { version = "1", features = ["derive"] }
serde_json = "1"
hashbrown = { version = "*", features = ["serde"] }
thiserror = "*"
nix = { version = "*", features = ["ioctl", "mount", "reboot", "fs"] }
tokio = { version = "1", features = ["rt-multi-thread", "macros", "process"] }
