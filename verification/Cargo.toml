[package]
name = "agent_x"
version = "0.1.0"
edition = "2021"
publish = false

[dependencies]
getrandom = "0.2"
uuid = { version = "1", features = ["v4"] }
serde = { version = "1", features = ["derive"] }
serde_json = "1"
serde_yaml = "0.9"
dioxus = { version = "0.6", features = ["router"] }
web-sys = { version = "0.3", features = ["Window", "Storage"] }
