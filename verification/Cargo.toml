[package]
name = "sdnc"
version = "0.1.0"
edition = "2021"
publish = false

[dependencies]
axum = "*"
chrono = "*"
clap = { version = "*", features = ["derive"] }
diesel = { version = "*", features = ["sqlite", "chrono"] }
lazy_static = "*"
reqwest = { version = "*", default-features = false, features = ["rustls-tls"] }
serde = { version = "*", features = ["derive"] }
serde_json = "*"
serenity = "*"
sqlx = { version = "*", default-features = false, features = ["sqlite", "runtime-tokio"] }
tera = "*"
tokio = { version = "*", features = ["macros", "rt-multi-thread", "net"] }
toml = "*"
tower-http = { version = "*", features = ["fs"] }
