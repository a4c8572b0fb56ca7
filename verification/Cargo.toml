[package]
name = "echo_mini_os"
version = "0.1.0"
edition = "2021"
publish = false

[dependencies]
cortex-m = "=0.7.10"
cortex-m-rt = "=0.7.7"
critical-section = { version = "=1.2.0", features = ["restore-state-u8"] }
embedded-graphics = "=0.8.2"
embedded-graphics-core = "=0.4.1"
embedded-hal = "=1.0.0"
minifb = "=0.29.0"
spin = "=0.9.9"
