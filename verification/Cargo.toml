[package]
name = "bench-hashes"
version = "0.1.0"
edition = "2021"
publish = false

[dependencies]
blake3 = "1"
sha2 = "*"
sha1-checked = "*"
sysinfo = "*"
