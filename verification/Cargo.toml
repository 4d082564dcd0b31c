[package]
name = "dp_net"
version = "0.1.0"
edition = "2021"
publish = false

[dependencies]
clap = { version = "=4.6.7", default-features = false, features = ["std", "derive", "help", "usage", "error-context"] }
data-encoding = "=2.11.1"
dirs = "=6.0.0"
iroh = { version = "=1.4.1", default-features = false, features = ["tls-ring"] }
iroh-tickets = "=1.0.0"
libc = "=0.2.191"
n0-error = "=1.0.1"
noq = "=1.4.0"
serde = { version = "=1.0.229", features = ["derive"] }
serde_json = "=1.0.154"
tokio = { version = "=1.54.1", features = ["full"] }
tokio-util = "=0.7.20"
tracing = "=0.1.44"
tracing-subscriber = "=0.3.23"
tun = { version = "=0.8.14", features = ["async"] }
xxhash-rust = { version = "=0.8.19", features = ["xxh3"] }
