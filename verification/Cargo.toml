[package]
name = "postgres_migrations"
version = "0.1.0"
edition = "2021"
publish = false

[dependencies]
bb8-postgres = "*"
tokio-postgres = "0.7"
thiserror = "1"
proc-macro2 = "1"
quote = "1"
syn = { version = "2", features = ["full"] }
