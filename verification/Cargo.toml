[package]
name = "bigleague"
version = "0.1.0"
edition = "2021"
publish = false

[dependencies]
env_logger = "=0.11.11"
log = "=0.4.34"
reqwest = { version = "=0.13.5", default-features = false }
serde = { version = "=1.0.229", features = ["derive"] }
serde_json = "=1.0.151"
tera = { version = "=2.4.0", features = ["glob_fs"] }
tokio = { version = "=1.53.2", features = ["rt-multi-thread", "macros", "time"] }
toml = "=1.1.7"
warp = { version = "=0.4.3", features = ["server"] }
