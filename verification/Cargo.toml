[package]
name = "qilin"
version = "0.1.0"
edition = "2021"
publish = false

[dependencies]
fontdue = "=0.9.5"
image = { version = "=0.25.10", default-features = false }
mint = "=0.5.9"
minifb = "=0.29.0"
kira = "=0.8.7"
hashbrown = { version = "=0.17.1", features = ["serde"] }
serde = { version = "=1.0.229", features = ["derive"] }
serde_json = "=1.0.154"
rayon = "=1.12.0"
