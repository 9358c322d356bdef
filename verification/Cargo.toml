[package]
name = "neon_rtos2"
version = "0.1.0"
edition = "2021"
publish = false

[dependencies]
spin = "0.9"
cortex-m = "0.7"
cortex-m-rt = "0.7"
cortex-m-semihosting = "0.5"
embedded-alloc = "0.5"
critical-section = "1"
paste = "1"
