[package]
name = "mlogv32"
version = "0.1.0"
edition = "2021"
publish = false

[dependencies]
critical-section = { version = "=1.2.0", features = ["std"] }
derive-mmio = "=0.8.0"
embassy-futures = "=0.1.2"
embassy-time-driver = "=0.2.2"
embassy-time-queue-utils = { version = "=0.3.2", features = ["generic-queue-8"] }
embedded-io = "=0.7.1"
embedded-io-async = "=0.7.0"
riscv = "=0.16.1"
riscv-rt = "=0.18.0"
