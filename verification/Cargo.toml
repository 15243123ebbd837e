[package]
name = "pgmoneta-mcp"
version = "0.1.0"
edition = "2021"
publish = false

[dependencies]
aes-gcm = "=0.10.3"
anyhow = "=1.0.104"
axum = "=0.8.9"
base64 = "=0.22.1"
chrono = "=0.4.45"
clap = { version = "=4.6.7", features = ["derive"] }
config = { version = "=0.15.27", default-features = false, features = ["toml"] }
home = "=0.5.12"
once_cell = "=1.21.4"
rand = "=0.9.5"
rmcp = { version = "=3.7.0", features = ["server", "macros", "transport-streamable-http-server"] }
rpassword = "=7.5.4"
scram = "=0.6.0"
scrypt = "0.12"
serde = { version = "=1.0.229", features = ["derive"] }
serde_json = "=1.0.154"
syslog-tracing = "=0.3.1"
tokio = { version = "=1.54.1", features = ["full"] }
toml = "=1.1.8"
tracing = "=0.1.44"
tracing-appender = "=0.2.5"
tracing-subscriber = { version = "=0.3.23", features = ["env-filter", "chrono"] }
zeroize = "=1.9.1"
