[package]
name = "dragit"
version = "0.1.0"
edition = "2021"
publish = false

[dependencies]
md-5 = "=0.10.6"
hex = "=0.4.3"
prost = "=0.13.5"
hostname = "=0.4.2"
bytesize = "=1.3.3"
serde = { version = "=1.0.229", features = ["derive"] }
toml = "=0.8.23"
directories-next = "=2.0.0"
libp2p = { version = "=0.54.1", features = ["tokio", "tcp", "noise", "yamux", "mdns", "macros"] }
tokio = { version = "=1.54.1", features = ["full"] }
tokio-util = { version = "=0.7.20", features = ["compat"] }
tokio-tar = "=0.3.1"
futures = "=0.3.34"
async-channel = "=2.5.0"
pnet_datalink = "=0.35.0"
tempfile = "=3.27.0"
log = "=0.4.35"
zbus = "1"
zvariant = "2"
