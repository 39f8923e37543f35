[package]
name = "yosys_isim"
version = "0.1.0"
edition = "2021"
publish = false

[dependencies]
smallvec = { version = "=1.16.4", features = ["serde"] }
more_collections = { version = "=0.14.3", features = ["smallset"] }
serde = { version = "=1.0.229", features = ["derive"] }
serde_json = "=1.0.154"
thiserror = "=2.0.21"
lazy_static = "=1.5.1"
napi = "=2.16.17"
napi-derive = "=2.16.13"
