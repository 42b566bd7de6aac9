[package]
name = "drawduel_engine"
version = "0.1.0"
edition = "2021"
publish = false

[dependencies]
fastrand = "2"
prost = "0.13"
serde = { version = "1", features = ["derive"] }
tokio = { version = "1", features = ["macros", "rt-multi-thread", "sync", "time", "net"] }
axum = { version = "0.8", features = ["ws"] }
hyper = "1"
tower-http = { version = "0.6", features = ["fs", "trace"] }
tracing = "0.1"
tracing-subscriber = { version = "0.3", features = ["env-filter"] }
wasm-bindgen = "0.2"
serde-wasm-bindgen = "0.6"
