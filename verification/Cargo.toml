[package]
name = "db_shm_manager"
version = "0.1.0"
edition = "2021"
publish = false

[dependencies]
bincode = "1.3.3"
ndarray = { version = "0.15.6", features = ["serde"] }
num-traits = "0.2"
serde = "1"
shared_memory = "0.12.4"
