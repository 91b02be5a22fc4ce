[package]
name = "subscriber_registry"
version = "0.1.0"
edition = "2021"
publish = false

[dependencies]
dashmap = "5.5.3"
lazy_static = "1.4.0"
