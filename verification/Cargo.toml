[package]
name = "pg_tier"
version = "0.1.0"
edition = "2021"
publish = false

[dependencies]
aws-sdk-s3 = "*"
tokio = { version = "*", default-features = false, features = ["rt"] }
