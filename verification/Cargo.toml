[package]
name = "factorial_circuit"
version = "0.1.0"
edition = "2021"
publish = false

[dependencies]
halo2_proofs = "*"
plotters = { version = "*", default-features = false, features = ["bitmap_backend", "bitmap_encoder"] }
