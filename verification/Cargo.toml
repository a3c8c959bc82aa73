[package]
name = "xsensor"
version = "0.1.0"
edition = "2021"
publish = false

[dependencies]
btleplug = "0.11"
uuid = "1"
serde = { version = "1", features = ["derive"] }
futures = "0.3"
tokio = { version = "1", features = ["time", "macros", "rt"] }
dioxus = { version = "0.7", default-features = false, features = ["macro", "html", "hooks", "signals", "router"] }
dioxus-free-icons = { version = "0.10", default-features = false, features = ["font-awesome-brands", "font-awesome-solid"] }
