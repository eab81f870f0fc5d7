[package]
name = "kvm_rust"
version = "0.1.0"
edition = "2021"
publish = false

[dependencies]
clap = { version = "=4.6.7", features = ["derive"] }
libc = "=0.2.191"
object = "=0.40.0"
termion = "=4.0.6"
