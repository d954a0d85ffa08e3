[package]
name = "lora_bridge"
version = "0.1.0"
edition = "2021"
publish = false

[dependencies]
http = "=1.5.0"
log = "=0.4.34"
prost = "=0.14.4"
semtech-udp = { version = "=0.12.0", features = ["server"] }
slog = "=2.8.2"
thiserror = "=2.0.21"
tokio = { version = "=1.54.1", features = ["macros", "rt-multi-thread", "sync", "time"] }
tonic = "=0.14.6"
tonic-prost = "=0.14.6"
triggered = "=0.1.3"
