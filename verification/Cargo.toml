[package]
name = "taskwarrior_web"
version = "0.1.0"
edition = "2021"
publish = false

[dependencies]
taskchampion = { version = "2.0", default-features = false }
shell-words = "1"
chrono = "0.4"
anyhow = "1"
axum = "0.8"
tokio = { version = "1", features = ["rt-multi-thread", "macros", "net"] }
tera = "1"
serde = { version = "1", features = ["derive"] }
serde_json = "1"
serde_path_to_error = "0.1"
indexmap = { version = "2", features = ["serde"] }
tracing = "0.1"
tracing-subscriber = { version = "0.3", features = ["env-filter"] }
tower-http = { version = "0.6", features = ["fs", "trace"] }
dotenvy = "0.15"
directories = "6"
lazy_static = "1"
rand = "0.9"
toml = "0.8"
config = { version = "0.15", default-features = false, features = ["toml"] }
