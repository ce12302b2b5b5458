[package]
name = "reniced"
version = "0.1.0"
edition = "2021"
publish = false

[dependencies]
anyhow = "1"
atty = "0.2"
clap = "4"
nix = { version = "0.29", features = ["user"] }
procfs = { version = "0.17", default-features = false }
serde = { version = "1", features = ["derive"] }
serde_yaml = "0.9"
tokio = { version = "1", features = ["macros", "rt-multi-thread", "time"] }
tracing = "0.1"
tracing-journald = "0.3"
tracing-subscriber = "0.3"
