[package]
name = "wisp_mux"
version = "0.1.0"
edition = "2021"
publish = false

[dependencies]
clap = { version = "4", features = ["derive"] }
libc = "0.2"
libghostty-vt = "*"
nix = { version = "0.30", features = ["fs", "ioctl", "poll", "process", "signal", "term"] }
postcard = { version = "1", features = ["use-std"] }
serde = { version = "1", features = ["derive"] }
tokio = { version = "1", features = ["full"] }
