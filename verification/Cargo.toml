[package]
name = "oui"
version = "0.8.1"
edition = "2021"
publish = false

[dependencies]
bincode = "=1.3.3"
byteorder = "=1.5.0"
eui48 = { version = "=1.1.0", default-features = false }
log = "=0.4.34"
serde = { version = "=1.0.229", features = ["derive"] }

[dev-dependencies]
regex = "=1.13.1"
