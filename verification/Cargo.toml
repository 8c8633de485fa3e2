[package]
name = "piper_vits"
version = "0.1.0"
edition = "2021"
publish = false

[dependencies]
burn = { version = "=0.21.0", default-features = false, features = ["ndarray"] }
burn-backend = { version = "=0.21.0", default-features = false, features = ["std"] }
burn-store = { version = "=0.21.0", default-features = false, features = ["std", "pytorch", "burnpack"] }
clap = { version = "4", features = ["derive"] }
espeak-rs = "=0.1.9"
hound = "3"
proc-macro2 = "1"
quote = "1"
serde_json = "=1.0.154"
syn = { version = "2", features = ["full", "extra-traits"] }
