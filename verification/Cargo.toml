[package]
name = "hedwig"
version = "0.1.0"
edition = "2021"
publish = false

[dependencies]
mailparse = "*"
html2text = "*"
regex = "1"
mail-send = "*"
async-imap = { version = "*", default-features = false, features = ["runtime-tokio"] }
async-trait = "*"
config = { version = "*", default-features = false, features = ["yaml"] }
diesel = { version = "2", features = ["sqlite", "r2d2"] }
dotenvy = "*"
env_logger = "*"
futures = "*"
log = "*"
rustls = "*"
serde = { version = "1", features = ["derive"] }
serde_json = "1"
thiserror = "*"
tokio = { version = "1", features = ["rt-multi-thread", "macros", "net", "time"] }
tokio-rustls = "*"
webpki-roots = "*"
zmq = "*"
