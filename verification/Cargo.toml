[package]
name = "responder"
version = "0.1.0"
edition = "2021"
publish = false

[dependencies]
b64 = "*"
mime_guess = "*"
axum = "*"
reqwest = { version = "*", default-features = false }
tokio = { version = "*", features = ["macros", "rt-multi-thread", "net"] }
tower = { version = "*", features = ["make"] }
dotenvy = "*"
