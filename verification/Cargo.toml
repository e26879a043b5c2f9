[package]
name = "voxtype_ctl"
version = "0.1.0"
edition = "2021"
publish = false

[dependencies]
libc = "0.2"
nix = { version = "*", features = ["signal"] }
notify = "*"

[dev-dependencies]
serde_json = "1"
