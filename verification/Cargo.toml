[package]
name = "hostbraid"
version = "0.1.0"
edition = "2021"
publish = false
rust-version = "1.85"

[dependencies]
humantime = "2"
zeroize = "1"
strsim = "0.11"
serde = { version = "1", features = ["derive"] }
serde_json = "1"
clap = { version = "4", features = ["derive", "env"] }
clap_complete = "4"
console = "0.15"
indicatif = "0.17"
keyring = "3"
rpassword = "7"
rustix = { version = "0.38", features = ["fs", "process"] }
fs2 = "0.4"
tokio = { version = "1", features = ["rt", "time", "macros"] }
reqwest = { version = "0.12", default-features = false, features = ["json", "rustls-tls"] }
futures-util = "0.3"
async-trait = "0.1"
command-group = "5"
signal-hook = "0.3"
thiserror = "2"
