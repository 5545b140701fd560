[package]
name = "sampler_core"
version = "0.1.0"
edition = "2021"
publish = false

[dependencies]
anyhow = "*"
hdrhistogram = { version = "*", default-features = false }
plotters = "*"
reqwest = { version = "*", default-features = false, features = ["json"] }
serde_json = "*"
tokio = { version = "*", default-features = false, features = ["rt-multi-thread", "sync", "macros", "time"] }
