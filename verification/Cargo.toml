[package]
name = "stwo_cairo_prover"
version = "0.1.0"
edition = "2021"
publish = false

[dependencies]
num-traits = "0.2"
serde = { version = "1", features = ["derive"] }
stwo = "2.3.0"
stwo-constraint-framework = "2.3.0"
