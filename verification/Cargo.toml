[package]
name = "beyond_os"
version = "0.1.0"
edition = "2021"
publish = false

[dependencies]
x86_64 = "=0.14.13"
spin = "=0.12.3"
pic8259 = "=0.10.4"
bootloader_api = "=0.11.17"
