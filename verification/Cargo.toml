[package]
name = "i3-revive"
version = "0.1.0"
edition = "2021"
publish = false

[dependencies]
byteorder = "1"
chrono = "0.4"
directories = "5"
regex = "1"
serde = { version = "1", features = ["derive"] }
serde_json = "1"
shlex = "1.3"
xcb = "1"
