[package]
name = "klogger"
version = "0.1.0"
edition = "2021"
publish = false

[dependencies]
heapless = "*"
log = "*"
pl011_qemu = "*"
spin = "*"
termcodes = "*"
x86 = "*"
