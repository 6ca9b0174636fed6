[package]
name = "tunnel_proxy"
version = "0.1.0"
edition = "2021"
publish = false

[dependencies]
diesel = { version = "2", features = ["mysql"] }
dotenvy = "0.15"
futures = "0.3"
hyper = { version = "0.14", features = ["client", "http1", "runtime", "server", "tcp"] }
serde = { version = "1", features = ["derive"] }
serde_json = "1"
tokio = { version = "1", features = ["macros", "rt-multi-thread", "sync", "time"] }
tracing = "0.1"
tracing-subscriber = "0.3"
