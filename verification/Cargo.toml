[package]
name = "aircraft_sim"
version = "0.1.0"
edition = "2021"
publish = false

[dependencies]
anyhow = "1"
chrono = { version = "0.4", features = ["serde"] }
clap = { version = "4", features = ["derive"] }
config = "0.13"
dotenv = "0.15"
geo = "0.28"
hyper = { version = "0.14", features = ["client", "http1", "tcp"] }
packed_struct = "0.10"
serde = { version = "1", features = ["derive"] }
serde_json = "1"
tokio = { version = "1", features = ["macros", "rt-multi-thread", "time"] }
