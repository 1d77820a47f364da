[package]
name = "aur_tester"
version = "0.1.0"
edition = "2021"
publish = false

[dependencies]
regex = "1"
etherparse = "0.18"
dns-parser = "0.8"
pcap = "2"
bollard = "0.19"
tokio = { version = "1", features = ["full"] }
futures-util = "0.3"
clap = { version = "4", features = ["derive"] }
is-root = "0.1"
reqwest = { version = "0.12", default-features = false, features = ["json", "rustls-tls"] }
serde = { version = "1", features = ["derive"] }
