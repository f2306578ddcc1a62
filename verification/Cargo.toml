[package]
name = "coral"
version = "0.1.0"
edition = "2021"
publish = false

[dependencies]
x86_64 = { version = "=0.14.13", default-features = false, features = ["instructions"] }
spin = "=0.9.9"
crossbeam-queue = { version = "=0.3.14", default-features = false, features = ["alloc"] }
conquer-once = { version = "=0.3.2", default-features = false }
futures = { version = "=0.3.34", default-features = false, features = ["alloc"] }
toml = "=0.5.11"
pc-keyboard = "=0.5.1"
walrus = { version = "0.19", default-features = false }
clap = { version = "3.2", features = ["derive"] }
anyhow = "1"
libc = "0.2"
lazy_static = { version = "1.4", features = ["spin_no_std"] }
uart_16550 = "0.2"
bootloader = "0.9"
