[package]
name = "mini_mdr"
version = "0.1.0"
edition = "2021"
publish = false

[dependencies]
anyhow = "1"
directories = "6"
fluent = "0.16"
ldtray = "*"
libc = "0.2"
local-ip-address = "0.6"
notify = "8"
open = "5"
serde = { version = "1", features = ["derive"] }
serde_json = "1"
signal-hook = "0.3"
toml = "0.8"
unic-langid = "0.9"
winreg = "*"
