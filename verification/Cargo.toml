[package]
name = "uffs"
version = "0.1.0"
edition = "2021"
publish = false

[dependencies]
rand = "*"
num_cpus = "*"
tokio = { version = "*", features = ["full"] }
tracing = "*"
tracing-subscriber = { version = "*", features = ["env-filter"] }
tracing-appender = "*"
dirs-next = "*"
sysinfo = "*"
colored = "*"
futures = "*"
chrono = "*"
jwalk = "*"
rayon = "*"
