[package]
name = "blinc_input"
version = "0.1.0"
edition = "2021"
publish = false

[dependencies]
blinc_core = "*"
blinc_layout = "*"
gilrs = "0.11"
tracing = "0.1"
wasm-bindgen = "0.2"
js-sys = "0.3"
web-sys = { version = "0.3", features = ["Window", "Navigator", "Gamepad", "GamepadButton"] }
