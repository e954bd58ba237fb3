[package]
name = "schoolcbb"
version = "0.1.0"
edition = "2021"
publish = false

[dependencies]
axum = { version = "0.7", features = ["ws"] }
tokio = { version = "1", features = ["full"] }
reqwest = { version = "0.12", default-features = false, features = ["json"] }
serde_json = "1"
async-graphql = "7"
tower-http = { version = "0.5", features = ["cors", "trace"] }
tracing = "0.1"
tracing-subscriber = { version = "0.3", features = ["env-filter", "fmt"] }
dotenvy = "0.15"
futures-util = { version = "0.3", features = ["sink"] }
http-body-util = "0.1"
tokio-tungstenite = "0.21"
tungstenite = "0.21"
web-sys = { version = "0.3", features = ["Window", "Document", "Element", "Location", "Navigator", "ServiceWorkerContainer", "console"] }
js-sys = "0.3"
wasm-bindgen = "0.2"
wasm-bindgen-futures = "0.4"
