[package]
name = "yaskbf"
version = "0.1.0"
edition = "2021"
publish = false

[dependencies]
defmt = "*"
defmt-rtt = "*"
embassy-executor = "*"
embassy-nrf = "*"
embassy-time = "*"
embassy-usb = "*"
embedded-graphics-core = "*"
nrf-softdevice = "*"
once_cell = "*"
panic-probe = "*"
sharp-memory-display = "*"
static_cell = "*"
