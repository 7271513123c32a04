[package]
name = "siterm"
version = "0.1.0"
edition = "2021"
publish = false

[dependencies]
defmt-rtt = "=1.3.1"
directories = "=6.0.0"
embassy-executor = { version = "=0.9.1", features = ["arch-std", "executor-thread"] }
embassy-futures = "=0.1.2"
embassy-rp = { version = "=0.10.0", features = ["rp2040"] }
embassy-sync = "=0.8.0"
embassy-time = { version = "=0.5.1", features = ["std"] }
embassy-usb = { version = "=0.6.0", default-features = false }
heapless = "=0.8.0"
panic-probe = "=1.0.0"
postcard = { version = "=1.1.3", default-features = false, features = ["alloc"] }
serde = { version = "=1.0.229", features = ["derive"] }
smart-leds = "=0.4.0"
strum = { version = "=0.28.0", features = ["derive"] }
tokio = { version = "=1.54.1", features = ["io-util", "macros", "rt", "sync", "time"] }
tokio-serial = "=5.5.0"
