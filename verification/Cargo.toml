[package]
name = "stardust_quic"
version = "0.1.0"
edition = "2021"
publish = false

[dependencies]
bevy_stardust_extras = "=0.2.1"
quinn-proto = { version = "=0.11.19", default-features = false }
bytes = "=1.12.1"
async-task = "=4.7.1"
crossbeam-deque = "=0.8.8"
crossbeam-channel = "=0.5.17"
mio = { version = "=1.2.4", features = ["os-poll", "net"] }
async-channel = "*"
async-io = "*"
futures-lite = "*"
anyhow = "*"
quiche = "*"
boring = "*"
