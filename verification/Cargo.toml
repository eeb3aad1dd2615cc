[package]
name = "uavled"
version = "0.1.0"
edition = "2021"
publish = false

[dependencies]
embedded-hal = "=1.0.0"
embedded-storage = "=0.3.2"
esp-alloc = "=0.7.0"
esp-backtrace = { version = "=0.15.1", features = ["esp32c3", "panic-handler", "println"] }
esp-hal = { version = "=1.0.0-beta.0", features = ["esp32c3", "unstable"] }
esp-println = { version = "=0.13.1", default-features = false, features = ["esp32c3", "uart"] }
esp-storage = { version = "=0.5.0", features = ["esp32c3", "nor-flash"] }
esp-wifi = { version = "=0.13.0", features = ["esp32c3", "ble"] }
