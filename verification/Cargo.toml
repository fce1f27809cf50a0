[package]
name = "lilygo_rs"
version = "0.1.0"
edition = "2021"
publish = false

[dependencies]
embedded-hal = "=1.0.0"
embedded-graphics = "=0.8.2"
mipidsi = "=0.8.0"
display-interface-spi = "=0.5.0"
embedded-hal-bus = "=0.3.0"
libm = "=0.2.16"
mlx9064x = "=0.2.1"
esp-hal = { version = "=1.2.2", features = ["esp32s2", "unstable"] }
esp-bootloader-esp-idf = { version = "=0.6.0", features = ["esp32s2"] }
esp-alloc = "*"
