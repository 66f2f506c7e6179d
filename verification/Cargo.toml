[package]
name = "aw_switcher"
version = "0.1.0"
edition = "2021"
publish = false

[dependencies]
anyhow = "1"
auto-launch = "*"
core-foundation = "*"
core-foundation-sys = "*"
core-graphics = "*"
ddc-hi = "*"
dirs = "*"
global-hotkey = "*"
io-kit-sys = "*"
mach2 = "*"
serde = { version = "1", features = ["derive"] }
tao = "*"
toml = "*"
tray-icon = "*"
