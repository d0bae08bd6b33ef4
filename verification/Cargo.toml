[package]
name = "anti_vm"
version = "0.1.0"
edition = "2021"
publish = false

[dependencies]
mac_address = "1.1"
sysinfo = { version = "0.29", default-features = false }
