[package]
name = "webserver"
version = "0.1.0"
edition = "2021"
publish = false

[dependencies]
http = "0.2"
hyper = { version = "0.14", features = ["server", "http1"] }
tokio = { version = "1", features = ["rt-multi-thread", "macros", "net"] }
openssl = "0.10"
tokio-openssl = "0.6"
clap = { version = "3", features = ["derive"] }
