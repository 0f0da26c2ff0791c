[package]
name = "bmos"
version = "0.1.0"
edition = "2021"
publish = false

[dependencies]
x86_64 = { version = "0.15", default-features = false, features = ["instructions"] }
hashbrown = "0.15"
spin = "0.9"
lazy_static = "1"
pc-keyboard = "*"
pic8259 = "*"
uart_16550 = "*"
psf = "*"
bootloader = "0.10"
linked_list_allocator = "*"

[dev-dependencies]
nom = "7"
