[package]
name = "ai-firewall"
version = "0.1.0"
edition = "2021"
publish = false

[dependencies]
anyhow = "1"
aya = "=0.14.0"
# Not used directly: it builds aya-ebpf, and later versions need a newer compiler.
aya-build = "=0.2.0"
aya-ebpf = "=0.2.1"
aya-log = "=0.3.0"
aya-log-ebpf = "=0.2.0"
clap = { version = "4", features = ["derive"] }
crossterm = "0.28"
env_logger = "0.11"
libc = "0.2"
linfa = "0.8"
linfa-clustering = "0.8"
log = "0.4"
ndarray = "0.16"
network-types = "=0.0.7"
ratatui = "0.29"
serde = { version = "1", features = ["derive"] }
serde_json = "1"
tokio = { version = "1", features = ["macros", "rt", "rt-multi-thread", "net", "signal", "sync", "time"] }
