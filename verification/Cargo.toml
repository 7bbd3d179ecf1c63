[package]
name = "airic_mesh"
version = "0.1.0"
edition = "2021"
publish = false

[dependencies]
vodozemac = "=0.11.1"
serde_json = "=1.0.151"
uuid = { version = "=1.27.0", features = ["v4", "serde"] }
chrono = { version = "=0.4.45", features = ["serde"] }
serde = { version = "=1.0.229", features = ["derive"] }
tokio = { version = "=1.53.2", features = ["rt-multi-thread", "macros", "time", "signal", "sync"] }
rumqttc = "=0.25.1"
async-trait = "=0.1.92"
thiserror = "=2.0.21"
