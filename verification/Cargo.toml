[package]
name = "asgi_http"
version = "0.1.0"
edition = "2021"
publish = false

[dependencies]
rand = "0.8"
redis = "0.27"
hyper = { version = "0.14", features = ["full"] }
tokio = { version = "1", features = ["full"] }
futures = "0.3"
crossbeam = "0.8"
r2d2 = "0.8"

[dev-dependencies]
rmp = "0.8"
