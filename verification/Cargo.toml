[package]
name = "friday"
version = "0.1.0"
edition = "2021"
publish = false

[dependencies]
regex = "1"
serde = { version = "1", features = ["derive"] }
serde_json = "1"
sha2 = "0.10"
uuid = { version = "1", features = ["v4"] }
async-trait = "0.1"
chrono = "0.4"
dirs = "*"
futures = "0.3"
http = "1"
ignore = "0.4"
keyring = { version = "3", default-features = false }
rmcp = { version = "3", default-features = false, features = ["client", "transport-child-process", "transport-streamable-http-client"] }
russh = "0.45"
russh-sftp = "2"
sqlx = { version = "0.8", default-features = false, features = ["runtime-tokio", "sqlite"] }
sse-stream = "0.2"
thiserror = "2"
tokio = { version = "1", features = ["full"] }
tokio-util = "0.7"
tracing = "0.1"
tracing-appender = "0.2"
tracing-subscriber = { version = "0.3", features = ["env-filter"] }
which = "*"

[dev-dependencies]
tempfile = "3"
