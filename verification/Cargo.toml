[package]
name = "async_vs_threads"
version = "0.1.0"
edition = "2021"
publish = false

[dependencies]
chrono = "0.4"
tabled = "0.10"
serde = { version = "1", features = ["derive"] }
serde_json = "1"
csv = "1"
clap = { version = "4", features = ["derive"] }
tokio = { version = "1", features = ["full"] }
hyper = { version = "0.14", features = ["client", "http1", "tcp"] }
http = "0.2"
tower = { version = "0.4", features = ["util"] }
reqwest = { version = "0.11", default-features = false, features = ["json", "blocking"] }
ureq = { version = "2", default-features = false }
futures = "0.3"
scheduled-thread-pool = "0.2"
tracing = "0.1"
tracing-subscriber = { version = "0.3", features = ["env-filter", "fmt", "registry"] }
tracing-opentelemetry = "0.17"
opentelemetry = "0.17"
opentelemetry-jaeger = "0.16"
log = "0.4"
pretty_env_logger = "0.4"
