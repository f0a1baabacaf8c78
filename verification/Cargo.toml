[package]
name = "radicle_services"
version = "0.1.0"
edition = "2021"
publish = false

[dependencies]
fastrand = "1"
sha2 = "0.10"
base64 = "0.13"
hex = "0.4"
byteorder = "1"
url = "2"
git2 = { version = "0.14", default-features = false }
flate2 = "1"
pgp = "0.8"
csv = "1"
serde = { version = "1", features = ["derive"] }
serde_json = "1"
thiserror = "1"
argh = "0.1"
envconfig = "0.10"
tokio = { version = "1", features = ["full"] }
warp = "0.3"
axum = "0.5"
chrono = "0.4"
tracing = "0.1"
either = "1"
anyhow = "1"
