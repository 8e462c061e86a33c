[package]
name = "syscall_trace"
version = "0.1.0"
edition = "2021"
publish = false

[dependencies]
nix = { version = "*", features = ["ptrace", "process"] }
serde_json = "*"
owo-colors = "*"
