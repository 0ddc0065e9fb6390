[package]
name = "moonstone"
version = "0.1.0"
edition = "2021"
publish = false

[dependencies]
a2 = "=0.10.0"
axum = "=0.7.9"
base64 = "=0.22.1"
chrono = "=0.4.45"
clap = { version = "=4.6.7", features = ["derive"] }
color-eyre = "=0.6.5"
diesel = { version = "=2.3.14", features = ["sqlite", "r2d2", "chrono"] }
dirs = "=7.0.0"
libc = "=0.2.191"
nix = { version = "=0.31.3", features = ["signal"] }
pem = "=3.0.6"
plist = "=1.10.3"
rand = "=0.8.8"
ring = "=0.17.14"
serde = { version = "=1.0.229", features = ["derive"] }
thiserror = "=1.0.69"
tokio = { version = "=1.54.1", features = ["full"] }
toml = "=1.1.8"
tower-http = { version = "=0.7.1", features = ["trace"] }
tracing = "=0.1.44"
tracing-subscriber = { version = "=0.3.23", features = ["env-filter"] }
trait-variant = "=0.1.3"
urlencoding = "=2.1.3"
uuid = { version = "=1.29.0", features = ["v4"] }
x509-parser = "=0.18.1"
