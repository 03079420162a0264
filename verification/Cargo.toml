[package]
name = "meshtassy"
version = "0.1.0"
edition = "2021"
publish = false

[dependencies]
heapless = "=0.8.0"
hash32 = "=0.3.1"
aes = "=0.8.4"
ctr = "=0.9.2"
async-trait = "*"
bosch-bme680 = "*"
defmt = "*"
defmt-rtt = "*"
embassy-embedded-hal = "*"
embassy-executor = "*"
embassy-futures = "*"
embassy-nrf = "*"
embassy-rp = "*"
embassy-sync = "*"
embassy-time = "*"
embassy-usb = "*"
embedded-hal = "*"
embedded-hal-async = "*"
embedded-hal-bus = "*"
libscd = "*"
lora-phy = "*"
panic-probe = "*"
sht4x = "*"
static_cell = "*"
