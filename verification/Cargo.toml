[package]
name = "bucketctl"
version = "0.1.0"
edition = "2021"
publish = false

[dependencies]
anyhow = "1"
aws-credential-types = "1"
aws-sdk-s3 = "1"
aws-smithy-runtime-api = { version = "1", features = ["client"] }
aws-smithy-types = { version = "1", features = ["http-body-1-x"] }
chrono = "0.4"
clap = { version = "4", features = ["derive"] }
dialoguer = "0.11"
futures-util = "0.3"
http-body = "1"
http-body-util = "0.1"
human_bytes = "0.4"
indicatif = "0.17"
owo-colors = "4"
reqwest = { version = "0.12", features = ["stream"] }
rustyline = "15"
serde = { version = "1", features = ["derive"] }
shlex = "1"
tokio = { version = "1", features = ["full"] }
tokio-util = { version = "0.7", features = ["io"] }
toml = "0.8"
