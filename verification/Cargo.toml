[package]
name = "continuwuity"
version = "0.1.0"
edition = "2021"
publish = false

[dependencies]
async-trait = "=0.1.92"
axum = "=0.8.9"
base64 = "=0.22.1"
futures = "=0.3.34"
http = "=1.5.0"
lettre = { version = "=0.11.23", default-features = false, features = ["builder"] }
regex = "=1.13.1"
ruma = { version = "=0.17.2", features = ["api", "events", "signatures", "federation-api-c", "client-api-s", "appservice-api-c"] }
serde = { version = "=1.0.229", features = ["derive"] }
serde-saphyr = "=2.0.0"
serde_json = { version = "=1.0.154", features = ["raw_value"] }
serde_urlencoded = "=0.7.1"
thiserror = "=2.0.21"
tokio = { version = "=1.54.1", features = ["macros", "sync", "time", "rt"] }
tower-sessions = "=0.15.0"
url = "=2.5.8"
