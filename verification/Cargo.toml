[package]
name = "mtd-vat-cli"
version = "0.1.0"
edition = "2021"
publish = false

[dependencies]
anyhow = "=1.0.104"
axum = "=0.8.9"
blake3 = "=1.8.7"
chrono = "=0.4.45"
clap = { version = "=4.6.7", features = ["derive", "env"] }
console = "=0.16.6"
dirs = "=7.0.0"
local-ip-address = "=0.6.13"
mac_address = "=1.2.0"
os_info = "=3.15.0"
percent-encoding = "=2.3.2"
reqwest = { version = "=0.13.5", default-features = false, features = ["form", "json", "query"] }
serde = { version = "=1.0.229", features = ["derive"] }
serde_json = "=1.0.151"
tokio = { version = "=1.53.2", features = ["macros", "rt", "net", "io-util", "fs"] }
webbrowser = "=1.2.4"
whoami = "=2.1.3"
