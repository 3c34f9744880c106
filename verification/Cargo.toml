[package]
name = "win_key_event"
version = "0.1.0"
edition = "2021"
publish = false

[dependencies]
tokio = { version = "=1.54.1", default-features = false, features = ["rt", "sync", "time"] }
windows = { version = "=0.58.0", default-features = false, features = ["Win32_UI_Input_KeyboardAndMouse"] }
