[package]
name = "phm_worker"
version = "0.1.0"
edition = "2021"
publish = false

[dependencies]
anyhow = "=1.0.104"
libc = "=0.2.191"
skywalking = { version = "=0.10.0", features = ["management"] }
tokio = { version = "=1.54.1", features = ["macros", "rt-multi-thread", "sync", "time"] }
tokio-stream = "=0.1.19"
tonic = "=0.12.3"
tracing = "=0.1.44"
