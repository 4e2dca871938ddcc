[package]
name = "sangria"
version = "0.1.0"
edition = "2021"
publish = false

[dependencies]
ark-ff = "0.3"
ark-ec = "0.3"
ark-std = "0.3"
ark-serialize = "0.3"
ark-sponge = "0.3"
ark-pallas = "0.3"
ark-vesta = "0.3"
ark-poly = "0.3"
ark-poly-commit = "0.3"
blake2 = "0.9"
hashbrown = "0.12"
thiserror = "1"

[dev-dependencies]
ark-bls12-377 = "0.3"
