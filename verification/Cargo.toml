[package]
name = "rvllm_runtime"
version = "0.1.0"
edition = "2021"
publish = false

[dependencies]
cudarc = { version = "0.19", default-features = false, features = ["std", "driver", "dynamic-loading", "cuda-12080"] }
serde_json = "1"
tracing = "0.1"
