[package]
name = "acytel"
version = "0.1.0"
edition = "2021"
publish = false

[dependencies]
jsonwebtoken = { version = "=11.1.0", features = ["rust_crypto"] }
serde_json = "=1.0.151"
serde = { version = "*", features = ["derive"] }
axum = "*"
tokio = { version = "*", features = ["full"] }
tokio-util = { version = "*", features = ["io"] }
tower-http = { version = "*", features = ["cors"] }
aws-config = "*"
aws-sdk-s3 = "*"
aws-smithy-runtime = { version = "*", features = ["client", "connector-hyper-0-14-x", "tls-rustls"] }
dotenvy = "*"
symphonia = { version = "=0.5.5", features = ["mp3", "aac", "isomp4"] }
