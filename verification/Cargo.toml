[package]
name = "http_home"
version = "0.1.0"
edition = "2021"
publish = false

[dependencies]
querystring = "*"
actix-web = "4"
tokio = { version = "1", features = ["macros", "rt-multi-thread", "sync"] }
thiserror = "1"
