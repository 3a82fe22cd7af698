[package]
name = "cgi_gateway"
version = "0.1.0"
edition = "2021"
publish = false

[dependencies]
mime_guess = "2"
hyper = { version = "0.14", features = ["full"] }
tokio = { version = "1", features = ["full"] }
