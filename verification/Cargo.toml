[package]
name = "kernel"
version = "0.1.0"
edition = "2021"
publish = false

[dependencies]
noto-sans-mono-bitmap = { version = "=0.3.2", features = ["unicode-specials"] }
bootloader_api = "=0.11.17"
x86_64 = { version = "=0.15.5", default-features = false, features = ["instructions"] }
uart_16550 = "=0.8.1"
spin = "=0.12.3"
conquer-once = "=0.4.0"
