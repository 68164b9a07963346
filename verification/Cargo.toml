[package]
name = "avio"
version = "0.1.0"
edition = "2021"
publish = false

[dependencies]
regex = "=1.13.1"
regex-split = "=0.1.0"
tokio = { version = "=1.54.1", features = ["net", "io-util", "rt-multi-thread", "macros", "sync", "time", "process"] }
openssl = "=0.10.82"
prost = "=0.13.5"
nusb = "=0.2.9"
serde = { version = "=1.0.229", features = ["derive"] }
whoami = "=2.1.3"
futures-lite = "2"
