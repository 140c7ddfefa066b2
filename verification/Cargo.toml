[package]
name = "ccbridge"
version = "0.1.0"
edition = "2021"
publish = false

[dependencies]
anyhow = "=1.0.104"
arc-swap = "=1.9.3"
bluer = { version = "=0.17.4", features = ["bluetoothd"] }
futures-lite = "=2.6.1"
futures-util = "=0.3.34"
globset = "=0.4.21"
http-body-util = "=0.1.5"
hyper = { version = "=1.12.0", features = ["server", "http1"] }
hyper-util = { version = "=0.1.21", features = ["tokio"] }
notify = "=8.2.1"
sd-notify = "=0.4.5"
serde = { version = "=1.0.229", features = ["derive"] }
serde_json = { version = "=1.0.154", features = ["preserve_order"] }
time = { version = "=0.3.55", features = ["local-offset"] }
tokio = { version = "=1.54.1", features = ["full"] }
toml = "=0.8.23"
tracing = "=0.1.44"
tracing-subscriber = { version = "=0.3.23", features = ["env-filter"] }
uuid = "=1.29.0"
zbus = { version = "=5.19.0", default-features = false, features = ["tokio"] }

[dev-dependencies]
tempfile = "=3.27.0"
