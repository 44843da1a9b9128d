[package]
name = "module_runtime"
version = "0.1.0"
edition = "2021"
publish = false

[dependencies]
heapless = { version = "=0.7.17", features = ["serde"] }
postcard = { version = "=1.1.3", default-features = false, features = ["heapless"] }
serde = { version = "=1.0.229", default-features = false, features = ["derive"] }
lora-phy = { version = "=3.0.1", default-features = false }
defmt = "=1.2.0"
defmt-rtt = "=1.3.1"
panic-probe = "=1.0.0"
cortex-m = "=0.7.10"
cortex-m-rt = "=0.7.7"
embedded-hal = "=1.0.0"
embedded-hal-async = "=1.0.0"
futures = { version = "=0.3.34", default-features = false }
embassy-futures = "=0.1.2"
embassy-sync = "=0.8.0"
embassy-time = "=0.5.1"
embassy-executor = { version = "=0.10.0", features = ["platform-std", "executor-thread"] }
embassy-embedded-hal = "=0.6.0"
embassy-boot = "=0.7.0"
embassy-boot-stm32 = "=0.8.0"
embassy-stm32 = { version = "=0.6.0", features = ["stm32wl55jc-cm4", "time-driver-any", "exti", "unstable-pac"] }
