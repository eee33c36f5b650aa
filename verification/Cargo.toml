[package]
name = "fluttertools"
version = "0.1.0"
edition = "2021"
publish = false

[dependencies]
anyhow = "=1.0.104"
chrono = "=0.4.45"
clap = { version = "=4.6.7", features = ["derive"] }
ctrlc = "=3.5.2"
gix = "=0.78.0"
java-properties = "=2.0.0"
kstring = "=2.0.0"
semver = "=1.0.28"
serde = { version = "=1.0.229", features = ["derive"] }
serde_json = "=1.0.151"
serde_yaml = "=0.9.34"
toml = "=0.8.23"
which = "=6.0.3"
windows-sys = { version = "=0.59.0", features = ["Win32_System_Console", "Win32_Foundation"] }
