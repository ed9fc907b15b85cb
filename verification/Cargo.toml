[package]
name = "acir_bridge"
version = "0.1.0"
edition = "2021"
publish = false

[dependencies]
acvm = "=0.46.0"
ark-bn254 = "=0.4.0"
ark-ff = "=0.4.2"
ark-relations = "=0.4.0"
ark-r1cs-std = "=0.4.0"
serde = { version = "1", features = ["derive"] }
serde_json = "1"
thiserror = "1"
