[package]
name = "lore-pg"
version = "0.1.0"
edition = "2021"
publish = false

[dependencies]
async-trait = "0.1"
aws-config = { version = "1", default-features = false, features = ["rt-tokio", "behavior-version-latest"] }
aws-sdk-s3 = { version = "1", default-features = false, features = ["rt-tokio", "sigv4a", "behavior-version-latest"] }
aws-smithy-http-client = { version = "1", features = ["rustls-ring"] }
aws-smithy-runtime-api = "1"
aws-types = "1"
bytes = "1"
chrono = "0.4"
deadpool-postgres = "*"
hex = "0.4"
rustls = { version = "0.23", default-features = false, features = ["ring", "std", "tls12"] }
rustls-native-certs = "0.8"
serde = { version = "1", features = ["derive"] }
tokio = { version = "1", features = ["rt-multi-thread", "macros", "sync", "time"] }
tokio-postgres = "0.7"
tokio-postgres-rustls = "*"
toml = "*"
tracing = "0.1"
