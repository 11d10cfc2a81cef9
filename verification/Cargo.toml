[package]
name = "dax_cache_req"
version = "0.1.0"
edition = "2021"
publish = false

[dependencies]
vhost = { version = "*", features = ["vhost-user-slave"] }
