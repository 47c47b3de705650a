[package]
name = "remote_prover"
version = "0.1.0"
edition = "2021"
publish = false

[dependencies]
url = "=2.5.8"
serde_json = "=1.0.151"
serde = { version = "=1.0.229", features = ["derive"] }
reqwest = { version = "=0.13.5", default-features = false, features = ["json"] }
tokio = { version = "=1.53.2", features = ["rt-multi-thread", "macros", "sync"] }
warp = { version = "=0.4.3", default-features = false, features = ["server"] }
parking_lot = "=0.12.5"
rand = "=0.10.3"
dotenvy = "=0.15.7"
snarkvm = "=4.11.0"
