[package]
name = "blinky_async"
version = "0.1.0"
edition = "2021"
publish = false

[dependencies]
embassy-time = "=0.3.2"
embassy-executor = "=0.6.3"
critical-section = "=1.2.0"
esp-hal = { version = "=0.21.1", features = ["esp32c3"] }
esp-hal-embassy = { version = "=0.4.0", features = ["esp32c3"] }
esp-println = { version = "=0.12.0", features = ["esp32c3"] }
esp-backtrace = { version = "=0.14.2", features = ["esp32c3", "panic-handler", "exception-handler", "println"] }
esp-alloc = "=0.5.0"
