[package]
name = "centralized_events"
version = "0.1.0"
edition = "2021"
publish = false

[dependencies]
libafl_bolts = { version = "0.12", default-features = false, features = ["std", "gzip"] }
hashbrown = "0.14"
serde = "1"
postcard = "1"
