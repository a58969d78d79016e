[package]
name = "lune"
version = "0.1.0"
edition = "2021"
publish = false

[dependencies]
sha1 = "=0.10.7"
sha2 = "=0.10.9"
md-5 = "=0.10.6"
blake2 = "=0.10.6"
sha3 = "=0.10.9"
digest = "=0.10.7"
base64 = "=0.21.7"
hex = "=0.4.3"
lz4_flex = "=0.11.6"
regex = "=1.13.1"
chrono = "=0.4.45"
urlencoding = "=2.1.3"
mlua = { version = "=0.9.9", features = ["luau", "async", "serialize"] }
tokio = { version = "=1.54.1", features = ["full"] }
clap = { version = "=4.6.7", features = ["derive"] }
anyhow = "=1.0.104"
serde = { version = "=1.0.229", features = ["derive"] }
serde_json = "=1.0.154"
serde_yaml = "=0.9.34"
toml = "=0.8.23"
directories = "=5.0.1"
dialoguer = "=0.11.0"
console = "=0.15.11"
async-compression = { version = "=0.4.52", features = ["tokio", "brotli", "gzip", "zlib"] }
thiserror = "=1.0.69"
ureq = "=2.12.1"
rustyline = "=12.0.0"
http = "=1.5.0"
chrono_lc = "*"
