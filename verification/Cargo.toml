[package]
name = "rattler_wheel"
version = "0.1.0"
edition = "2021"
publish = false

[dependencies]
astral-tokio-tar = "=0.7.0"
astral_async_zip = { version = "=0.0.22", features = ["deflate", "tokio"] }
async-compression = { version = "=0.4.52", features = ["bzip2", "tokio"] }
async-spooled-tempfile = "=0.1.0"
base64 = "=0.22.1"
fs-err = "=3.3.2"
futures = "=0.3.34"
futures-util = "=0.3.34"
hex = "=0.4.3"
md-5 = "=0.11.0"
rayon = "=1.12.0"
sha2 = "=0.11.1"
tar = "=0.4.46"
tempfile = "=3.27.0"
thiserror = "=2.0.21"
tokio = { version = "=1.54.1", features = ["fs", "io-util", "macros", "rt", "sync"] }
tokio-util = { version = "=0.7.20", features = ["compat"] }
tracing = "=0.1.44"
url = "=2.5.8"
zip = { version = "=8.6.0", default-features = false, features = ["deflate"] }
