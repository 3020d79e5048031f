[package]
name = "dst_transitions"
version = "0.1.0"
edition = "2021"
publish = false

[dependencies]
chrono = "0.4"
chrono-tz = "*"
tokio = { version = "1", features = ["macros", "rt-multi-thread"] }
futures = "0.3"
lambda_http = "*"
aws-config = { version = "1", features = ["behavior-version-latest"] }
aws-sdk-dynamodb = { version = "1", features = ["behavior-version-latest"] }
tracing = "0.1"
tracing-subscriber = "0.3"
