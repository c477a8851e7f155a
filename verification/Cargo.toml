[package]
name = "pivot_sync"
version = "0.1.0"
edition = "2021"
publish = false

[dependencies]
iceoryx2 = "=0.10.0"
iceoryx2-bb-posix = "=0.10.0"
iceoryx2-bb-system-types = "=0.10.0"
iceoryx2-bb-container = "=0.10.0"
iceoryx2-bb-loggers = { version = "=0.10.0", features = ["console", "std"] }
crossbeam = "=0.8.5"
uuid = { version = "=1.27.0", features = ["v4"] }
rand = "=0.10.3"
