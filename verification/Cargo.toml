[package]
name = "lambda_handler"
version = "0.1.0"
edition = "2021"
publish = false

[dependencies]
aws_lambda_events = { version = "*", default-features = false, features = ["s3", "sns", "sqs"] }
lambda_runtime = "*"
serde = { version = "*", features = ["derive"] }
serde_json = "*"
tower = "*"
