[package]
name = "tcpgraph"
version = "0.1.0"
edition = "2021"
publish = false

[dependencies]
anyhow = "1"
clap = { version = "4", features = ["derive"] }
crossterm = "0.27"
pcap = "1"
pnet = "0.34"
ratatui = "0.26"
tokio = { version = "1", features = ["full"] }
