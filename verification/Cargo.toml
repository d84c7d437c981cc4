[package]
name = "hiper_supervisor"
version = "0.1.0"
edition = "2021"
publish = false

[dependencies]
sha1_smol = { version = "=1.0.1", features = ["std"] }
path-absolutize = "=3.1.1"
dirs = "=7.0.0"
tinyget = { version = "=1.1.4", features = ["https"] }
oneshot = { version = "=0.2.1", features = ["std"] }
nix = "=0.31.3"
anyhow = "=1.0.104"
windows = { version = "=0.52.0", features = ["Win32_Foundation", "Win32_System_Threading", "Win32_System_ProcessStatus", "Win32_System_Console"] }
