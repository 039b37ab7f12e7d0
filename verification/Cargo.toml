[package]
name = "ebpfapp"
version = "0.1.0"
edition = "2021"
publish = false

[dependencies]
anyhow = "*"
aya = "*"
bytes = "*"
log = "*"
simplelog = "*"
structopt = "*"
tokio = { version = "*", features = ["macros", "rt-multi-thread", "signal", "sync"] }
