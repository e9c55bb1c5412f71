[package]
name = "macro_kit"
version = "0.1.0"
edition = "2021"
publish = false

[dependencies]
syn = { version = "=2.0.119", features = ["full"] }
quote = "=1.0.47"
proc-macro2 = "=1.0.107"
proc-macro-error = "1"
aws-config = { version = "=1.13.0", default-features = false, features = ["behavior-version-latest"] }
aws-sdk-lambda = { version = "=1.156.0", default-features = false }
aws-sdk-s3 = { version = "=1.157.0", default-features = false }
