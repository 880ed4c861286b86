[package]
name = "alterware_launcher"
version = "0.1.0"
edition = "2021"
publish = false

[dependencies]
serde_json = "1"
mslnk = "0.1"
steamlocate = "=1.2.1"
sha1_smol = "1"
