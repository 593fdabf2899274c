[package]
name = "viewd"
version = "0.1.0"
edition = "2021"
publish = false

[dependencies]
anyhow = "*"
bytes = "*"
clap = { version = "*", features = ["derive"] }
console = "*"
crossbeam-channel = "*"
raw_tty = "*"
rayon = "*"
s2n-quic = "*"
sdl2 = { version = "*", features = ["image"] }
terminal-keycode = "*"
tokio = { version = "*", features = ["full"] }
tracing = "*"
tracing-subscriber = "*"
