[package]
name = "pp"
version = "0.1.0"
edition = "2021"
publish = false

[dependencies]
serde = { version = "=1.0.229", features = ["derive"] }
serde_json = "=1.0.154"
nix = { version = "=0.31.3", features = ["sched", "process", "socket", "net", "uio", "signal", "fs"] }
libc = "=0.2.191"
lazy_static = "=1.5.1"
parking_lot = "=0.13.0"
futures = { version = "=0.3.34", features = ["thread-pool"] }
num_cpus = "=1.17.0"
