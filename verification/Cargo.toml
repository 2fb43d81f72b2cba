[package]
name = "sikios"
version = "0.1.0"
edition = "2021"
publish = false

[dependencies]
bitvec = "=1.1.1"
critical-section = "=1.2.0"
goblin = "=0.10.7"
num = "=0.4.3"
once_cell = "=1.21.4"
uart_16550 = "=0.8.1"
uefi = { version = "=0.41.0", features = ["alloc"] }
