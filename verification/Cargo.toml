[package]
name = "opentelemetry_aws"
version = "0.1.0"
edition = "2021"
publish = false

[dependencies]
hex = "0.4"
rand = "0.8"
futures = "0.3"
rusoto_core = { version = "0.48", default-features = false, features = ["rustls"] }
rusoto_xray = { version = "0.48", default-features = false, features = ["rustls"] }
