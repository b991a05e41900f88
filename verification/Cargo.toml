[package]
name = "trotter"
version = "1.0.0"
edition = "2021"
publish = false

[dependencies]
clap = { version = "4", features = ["derive"] }
openssl = "0.10"
thiserror = "1"
tokio = { version = "1", features = ["io-util", "macros", "net", "rt-multi-thread", "time"] }
tokio-openssl = "0.6"
url = "2"
urlencoding = "2"
wildmatch = "2"
