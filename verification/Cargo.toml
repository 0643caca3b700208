[package]
name = "librepods"
version = "0.1.0"
edition = "2021"
publish = false

[dependencies]
aes = "0.8"
hex = "0.4"
log = "0.4"
env_logger = "0.11"
clap = { version = "4", features = ["derive"] }
serde = { version = "1", features = ["derive"] }
serde_json = "1"
futures = "0.3"
tokio = { version = "1", features = ["rt-multi-thread", "macros", "sync", "time", "process"] }
bluer = { version = "0.17", features = ["bluetoothd", "l2cap"] }
dbus = "0.9"
ksni = "0.3"
iced = { version = "0.13", default-features = false, features = ["tokio"] }
image = { version = "0.25", default-features = false }
imageproc = { version = "0.25", default-features = false }
ab_glyph = "0.2"
