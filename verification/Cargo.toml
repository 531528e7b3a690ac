[package]
name = "streamos"
version = "0.1.0"
edition = "2021"
publish = false

[dependencies]
hashbrown = "0.14"
ahash = "0.8"
elf = { version = "0.7", default-features = false }
