[package]
name = "rpi_os"
version = "0.1.0"
edition = "2021"
publish = false

[dependencies]
tock-registers = "=0.8.1"
aarch64-cpu = "=9.4.0"
clap = { version = "=4.6.7", features = ["derive"] }
serialport = { version = "=4.10.1", default-features = false }
