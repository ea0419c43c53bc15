[package]
name = "chuk_tool_runtime"
version = "0.1.0"
edition = "2021"
publish = false

[dependencies]
serde_json = "=1.0.154"
rand = "=0.9.5"
tokio = { version = "=1.54.1", features = ["full"] }
async-trait = "=0.1.92"
tempfile = "=3.27.0"
thiserror = "=2.0.21"
chuk-mcp = "=0.2.0"
pyo3 = "=0.29.3"
pyo3-async-runtimes = { version = "=0.29.0", features = ["tokio-runtime"] }
pythonize = "=0.29.0"
