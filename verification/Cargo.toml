[package]
name = "in_keys"
version = "0.1.0"
edition = "2021"
publish = false

[dependencies]
rustix = { version = "=1.1.5", features = ["event", "termios", "stdio", "pty"] }
