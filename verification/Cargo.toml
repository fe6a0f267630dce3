[package]
name = "xiaoai_agent"
version = "0.1.0"
edition = "2021"
publish = false

[dependencies]
anyhow = "1"
base64 = "=0.22.1"
clap = { version = "4", features = ["derive"] }
futures = "0.3"
libloading = "=0.8.9"
md5 = "=0.7.0"
rand = "=0.8.8"
reqwest = { version = "=0.13.5", default-features = false, features = ["json", "multipart", "stream", "query"] }
rig-core = { version = "=0.40.0", default-features = false, features = ["rmcp"] }
rmcp = { version = "=1.8.0", default-features = false, features = ["client", "transport-worker", "client-side-sse", "transport-streamable-http-client", "transport-streamable-http-client-reqwest"] }
serde = { version = "1", features = ["derive"] }
serde_json = "=1.0.154"
serde_yaml = "0.9"
shairplay = "=0.10.0"
shell-words = "=1.1.1"
sse-stream = "0.2"
thiserror = "2"
tokio = { version = "1", features = ["full"] }
tokio-tungstenite = "=0.30.0"
tracing = "0.1"
tracing-subscriber = { version = "0.3", features = ["env-filter"] }
url = "=2.5.8"
