[package]
name = "knapsack_jobs"
version = "0.1.0"
edition = "2021"
publish = false

[dependencies]
uuid = { version = "=1.29.0", features = ["v4", "serde"] }
genevo = { version = "=0.7.1", features = ["smallvec"] }
smallvec = "=1.16.4"
serde = { version = "=1.0.229", features = ["derive"] }
backoff = { version = "=0.4.0", features = ["tokio"] }
diesel = { version = "=2.3.14", features = ["postgres", "uuid"] }
lapin = "=2.5.5"
futures-lite = "=2.6.1"
tokio = { version = "=1.54.1", features = ["full"] }
rocket = { version = "=0.5.2", features = ["json"] }
