[package]
name = "skekbot_rs"
version = "0.1.0"
edition = "2021"
publish = false

[dependencies]
regex = "=1.13.1"
rand = "=0.9.5"
serenity = "=0.12.5"
poise = "=0.6.2"
tokio = { version = "=1.54.1", features = ["full"] }
anyhow = "=1.0.104"
serde = { version = "=1.0.229", features = ["derive"] }
serde_json = "=1.0.154"
tracing = "=0.1.44"
tracing-subscriber = { version = "=0.3.23", features = ["env-filter", "chrono"] }
reqwest = { version = "=0.12.28", default-features = false, features = ["json", "rustls-tls"] }
axum = "=0.8.9"
mlua = { version = "=0.11.6", features = ["luau", "async", "serialize", "send"] }
moka = { version = "=0.12.16", features = ["future"] }
sea-orm = { version = "=2.0.4", default-features = false, features = ["sqlx-sqlite", "runtime-tokio-rustls", "macros"] }
config = { version = "=0.15.27", default-features = false, features = ["toml"] }
askama = "=0.16.1"
utoipa = "=6.0.0"
utoipa-scalar = { version = "=0.4.0", features = ["axum"] }
rust-embed = "=8.13.0"
tower-http = { version = "=0.7.1", features = ["fs"] }
mime_guess = "=2.0.5"
console = { version = "=0.16.6", default-features = false, features = ["std"] }
image = { version = "=0.25.10", default-features = false, features = ["png", "jpeg", "webp"] }
imageproc = { version = "=0.27.0", default-features = false, features = ["text"] }
ab_glyph = "=0.2.32"
thiserror = "=2.0.21"
displaydoc = "=0.2.7"
