[package]
name = "rust_o11y"
version = "0.1.0"
edition = "2021"
publish = false

[dependencies]
actix-web = "4"
actix-web-prom = "*"
tokio = { version = "1", features = ["macros", "rt-multi-thread"] }
