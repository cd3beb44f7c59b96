[package]
name = "docker_intrude"
version = "0.1.0"
edition = "2021"
publish = false

[dependencies]
caps = "0.5"
libc = "0.2"
nix = { version = "0.29", features = ["user", "sched", "mount", "signal", "process", "fs"] }
serde = { version = "1", features = ["derive"] }
serde_json = "1"
