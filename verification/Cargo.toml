[package]
name = "wenmeng"
version = "0.1.0"
edition = "2021"
publish = false

[dependencies]
webparse = "*"
algorithm = "*"
base64 = "0.21"
sha1 = "0.10"
flate2 = "1"
brotli = "3"
rand = "0.8"
rbtree = "*"
bytes = "1"
tokio = { version = "1", features = ["full"] }
tokio-util = { version = "0.7", features = ["codec"] }
tokio-stream = "0.1"
futures = "0.3"
futures-core = "0.3"
futures-util = "0.3"
async-trait = "0.1"
lazy_static = "1"
log = "0.4"
tracing = "0.1"
rustls = "0.21"
tokio-rustls = "0.24"
webpki-roots = "0.25"
