[package]
name = "solx_actions"
version = "0.1.0"
edition = "2021"
publish = false

[dependencies]
aes-gcm = "=0.10.3"
async-trait = "0.1"
axum = { version = "=0.7.9", features = ["ws"] }
base64 = "=0.22.1"
chrono = "=0.4.45"
futures = "0.3"
keyring = "=3.6.3"
libsql = { version = "=0.9.30", default-features = false, features = ["core"] }
rand = "=0.8.8"
reqwest = { version = "=0.12.28", default-features = false, features = ["json", "stream"] }
serde = { version = "1", features = ["derive"] }
serde_json = "=1.0.154"
tokio = { version = "1", features = ["full"] }
tracing = "0.1"
uuid = { version = "=1.29.0", features = ["v4"] }
wasmtime = { version = "=47.0.4", default-features = false, features = ["async", "component-model", "cranelift", "runtime", "std"] }
wasmtime-wasi = { version = "=47.0.4", default-features = false, features = ["p2"] }
