[package]
name = "btlescan"
version = "0.1.0"
edition = "2021"
publish = false

[dependencies]
chrono = "*"
csv = "*"
uuid = { version = "*", features = ["v4"] }
tokio = { version = "*", features = ["macros", "rt-multi-thread", "sync", "time"] }
crossterm = "*"
ratatui = "*"
btleplug = "*"
ble-peripheral-rust = "*"
futures = "*"
parking_lot = "*"
