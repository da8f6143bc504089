[package]
name = "bluster"
version = "0.1.0"
edition = "2021"
publish = false

[dependencies]
futures = "=0.3.34"
uuid = "=1.29.0"
libc = "=0.2.191"
tokio = { version = "=1.54.1", features = ["rt", "net"] }
dbus = { version = "=0.9.12", features = ["vendored"] }
dbus-tokio = "=0.7.6"
async-trait = "=0.1.92"
