[package]
name = "key_disclosure"
version = "0.1.0"
edition = "2021"
publish = false

[dependencies]
hex = "=0.4.3"
rand = "=0.8.8"
rand_chacha = "=0.3.1"
tlock = "=0.0.10"
static-dh-ecdh = "=0.1.1"
drand_core = "=0.0.14"
clap = { version = "=4.6.7", features = ["derive"] }
humantime = "=2.4.0"
serde = { version = "=1.0.229", features = ["derive"] }
serde_json = "=1.0.151"

[dev-dependencies]
bincode = "=1.3.3"
alloy-sol-types = "=0.7.7"
