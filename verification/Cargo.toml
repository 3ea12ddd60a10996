[package]
name = "fleet_sizer"
version = "0.1.0"
edition = "2021"
publish = false

[dependencies]
nanoid = "0.4"
clap = { version = "3.2", features = ["derive"] }
comfy-table = "6"
serde = { version = "1", features = ["derive"] }
tokio = { version = "1", features = ["macros", "rt-multi-thread"] }
toml = "0.5"
