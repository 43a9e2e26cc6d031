[package]
name = "oab_providers"
version = "0.1.0"
edition = "2021"
publish = false

[dependencies]
base64 = "0.22"
futures-util = { version = "0.3", default-features = false, features = ["std"] }
httpdate = "1"
nix = { version = "*", features = ["fs", "signal"] }
reqwest = { version = "0.12", default-features = false, features = ["stream"] }
rusqlite = "*"
rust_decimal = "1"
serde = { version = "1", features = ["derive"] }
serde_json = "1"
sha2 = "0.10"
tempfile = "3"
thiserror = "2"
time = { version = "0.3", features = ["formatting", "parsing"] }
tokio = { version = "1", features = ["io-util", "macros", "process", "rt", "sync", "time"] }
tokio-util = "0.7"
url = "2"
zeroize = "1"
