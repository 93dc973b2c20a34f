[package]
name = "elevator_sync"
version = "0.1.0"
edition = "2021"
publish = false

[dependencies]
chrono = "=0.4.45"
timer = "=0.2.0"
rand = "=0.8.8"
serde = "=1.0.229"
serde_derive = "=1.0.229"
serde_json = "=1.0.151"
