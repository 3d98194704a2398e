[package]
name = "occupancy"
version = "0.1.0"
edition = "2021"
publish = false

[dependencies]
sysinfo = "*"
core_affinity = "*"
jemallocator = "*"
