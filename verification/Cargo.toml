[package]
name = "web_serial_blinky"
version = "0.1.0"
edition = "2021"
publish = false

[dependencies]
heapless = "=0.8.0"
smart-leds = "0.4"
tinyrand = "0.5"
cortex-m = "0.7"
embedded-hal = "1.0"
panic-halt = "0.2"
rtic = { version = "2", features = ["thumbv6-backend"] }
rtic-monotonics = { version = "2", features = ["cortex-m-systick"] }
rtic-sync = "1"
usb-device = "0.3"
usbd-serial = "0.2"
usbd_scsi = "*"
usbd-storage = "*"
ghostfat = "*"
ws2812-pio = "*"
vcc-gnd-yd-rp2040 = "*"
