[package]
name = "midi_controller_core"
version = "0.1.0"
edition = "2021"
publish = false

[dependencies]
critical-section = "1"
defmt = "*"
embassy-executor = "*"
embassy-futures = "*"
embassy-sync = "*"
embassy-time = "*"
embedded-graphics = "*"
esp-alloc = "*"
esp-bootloader-esp-idf = { version = "*", features = ["esp32s3"] }
esp-hal = { version = "*", features = ["esp32s3", "unstable"] }
esp-println = { version = "*", features = ["esp32s3"] }
esp-rtos = { version = "*", features = ["esp32s3", "embassy"] }
heapless = "0.8"
midi-convert = "*"
ssd1306 = "*"
usb-device = "0.3"
usbd-midi = "0.5"
