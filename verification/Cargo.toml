[package]
name = "poker_reloaded"
version = "0.1.0"
edition = "2021"
publish = false

[dependencies]
rs_poker = { version = "=4.1.0", default-features = false }
tokio = { version = "=1.53.2", features = ["full"] }
axum = { version = "=0.6.20", features = ["ws", "headers"] }
serde = { version = "=1.0.229", features = ["derive"] }
serde_json = "=1.0.151"
futures = "=0.3.34"
tower-http = { version = "=0.4.4", features = ["trace"] }
headers = "=0.3.9"
hapi-iron-oxide = "=0.1.0"
alloy-primitives = "=1.7.3"
hex = "=0.4.3"
rand = "=0.8.8"
