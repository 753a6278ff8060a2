[package]
name = "touchctl"
version = "0.1.0"
edition = "2021"
publish = false

[dependencies]
anyhow = "1"
directories = "*"
evdev = "0.13.2"
log = "0.4"
pico-args = "0.5"
serde = { version = "1", features = ["derive"] }
serde_json = "1"
toml = "0.8"
uinput = "*"
whoami = "1"
