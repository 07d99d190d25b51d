[package]
name = "fluidbox"
version = "0.1.0"
edition = "2021"
publish = false

[dependencies]
libm = "0.2"
log = "0.4"
static_cell = "*"
embassy-time = "*"
embassy-executor = "*"
esp-hal = "*"
esp-sync = "*"
esp-rtos = "*"
esp-println = "*"
esp-alloc = "*"
esp-bootloader-esp-idf = "*"
