[package]
name = "ghost_time"
version = "0.1.0"
edition = "2021"
publish = false

[dependencies]
chrono = "0.4"
hex = "0.4"
rand = "0.8"
serde = { version = "1", features = ["derive"] }
serde_json = "1"
csv = "1"
rusqlite = { version = "0.31", features = ["bundled-sqlcipher"] }
printpdf = "0.7"
keyring = "3"
device_query = "2"
tokio = { version = "1", features = ["time", "macros", "rt"] }
log = "0.4"
