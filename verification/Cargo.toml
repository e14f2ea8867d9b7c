[package]
name = "starter_kit"
version = "0.1.0"
edition = "2021"
publish = false

[dependencies]
esp-hal = { version = "=1.1.2", features = ["esp32s3", "unstable"] }
esp-backtrace = { version = "*", features = ["esp32s3"] }
esp-bootloader-esp-idf = { version = "*", features = ["esp32s3"] }
esp-println = { version = "*", features = ["esp32s3"] }
defmt = "=1.2.0"
libm = "=0.2.16"
nb = "=1.1.0"
