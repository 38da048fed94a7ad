[package]
name = "pi_agent_core"
version = "0.1.0"
edition = "2021"
publish = false

[dependencies]
jsonschema = { version = "=0.60.2", default-features = false }
mlua = { version = "=0.12.2", features = ["luau-jit", "send"] }
serde_json = { version = "=1.0.154", features = ["raw_value"] }
smol = "=2.0.2"
ureq = "=3.5.1"
