[package]
name = "rustcode"
version = "0.1.0"
edition = "2021"
publish = false

[dependencies]
ringbuffer = "=0.15.0"
bincode = "=1.3.3"
serde = { version = "=1.0.229", features = ["derive"] }
godot = "=0.2.4"
godot_tokio = "=0.2.2"
renet = "=1.2.0"
renet_netcode = "=1.2.0"
renet_visualizer = "=1.1.0"
tracing = "=0.1.44"
tracing-subscriber = { version = "=0.3.23", features = ["env-filter"] }
