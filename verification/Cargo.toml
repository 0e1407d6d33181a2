[package]
name = "xmcl"
version = "0.1.0"
edition = "2021"
publish = false

[dependencies]
hex = "0.4"
sha1 = "0.10"
sha2 = "0.10"
murmur2 = "0.1"
regex = "1"
urlencoding = "2"
url = "2"
serde = { version = "1", features = ["derive"] }
serde_json = "1"
zip = { version = "*", default-features = false, features = ["deflate"] }
reqwest = { version = "0.12", default-features = false, features = ["json", "cookies"] }
tokio = { version = "1", features = ["rt", "macros", "fs"] }
futures = "0.3"
log = "0.4"
