[package]
name = "re_mcap"
version = "0.1.0"
edition = "2021"
publish = false

[dependencies]
mcap = { version = "=0.26.0", default-features = false }
re_log_types = "=0.36.3"
