[package]
name = "http_router"
version = "0.1.0"
edition = "2021"
publish = false

[dependencies]
http = "0.1"
http-service = "0.4"
route-recognizer = "0.1"
