[package]
name = "audit_guard"
version = "0.1.0"
edition = "2021"
publish = false

[dependencies]
ulid = "*"
iso8601-timestamp = "*"
