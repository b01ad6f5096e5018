[package]
name = "simplecc"
version = "0.2.0"
edition = "2021"
publish = false

[dependencies]
anyhow = "1"
dirs = "*"
flate2 = "1"
futures-util = "0.3"
lsp-types = "0.97"
notify = "*"
reqwest = { version = "0.12", default-features = false, features = ["json", "stream", "rustls-tls"] }
serde = { version = "1", features = ["derive"] }
serde_json = "1"
tar = "0.4"
tokio = { version = "1", features = ["full"] }
url = "2"
urlencoding = "2"
which = "*"
zip = { version = "*", default-features = false, features = ["deflate"] }
