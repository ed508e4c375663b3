[package]
name = "audio2mqtt"
version = "1.5.0"
edition = "2021"
publish = false

[dependencies]
anyhow = "1"
axum = { version = "0.8", default-features = false, features = ["http1", "json", "tokio"] }
base64 = "=0.22.1"
chrono = { version = "=0.4.45", default-features = false, features = ["now", "serde", "std"] }
futures-util = { version = "0.3", default-features = false, features = ["std"] }
hound = "=3.5.1"
reqwest = { version = "0.11", default-features = false, features = ["json", "stream", "rustls-tls"] }
rumqttc = { version = "0.24", default-features = false }
serde = { version = "1", features = ["derive"] }
serde_json = "=1.0.154"
slog = "2"
tokio = { version = "1", features = ["macros", "rt-multi-thread", "fs", "io-util", "net", "sync", "time"] }
tokio-stream = { version = "0.1", default-features = false, features = ["sync"] }
tower-http = { version = "0.6", features = ["fs", "trace"] }
tracing = "0.1"
tracing-subscriber = { version = "0.3", default-features = false, features = ["env-filter", "fmt"] }
tsclientlib = "=0.2.0"
tsproto = "=0.2.0"
tsproto-packets = "0.1"
uuid = { version = "=1.29.0", features = ["v4", "serde"] }
whisper-rs = { version = "0.15", default-features = false }
