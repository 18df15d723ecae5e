[package]
name = "case_expand"
version = "0.1.0"
edition = "2021"
publish = false

[dependencies]
syn = { version = "2", features = ["full"] }
futures = "0.3"
futures-timer = "3"
