[package]
name = "shake_256"
version = "0.1.0"
edition = "2021"
publish = false

[dependencies]
tiny-keccak = { version = "*", features = ["keccak", "shake"] }
stwo = "*"
stwo-constraint-framework = "*"
stwo-air-utils = "*"
stwo-air-utils-derive = "*"
itertools = "*"
num-traits = "*"
rayon = "*"
serde = { version = "*", features = ["derive"] }
thiserror = "*"
tracing = "*"
tracing-subscriber = "*"
