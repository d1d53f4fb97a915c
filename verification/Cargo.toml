[package]
name = "restql_home"
version = "0.1.0"
edition = "2021"
publish = false

[dependencies]
uuid = "1"
time = { version = "0.3", features = ["parsing", "formatting", "macros", "serde"] }
serde = { version = "1", features = ["derive"] }
serde_json = "1"
anyhow = "1"
either = { version = "1", features = ["serde"] }
futures-util = "0.3"
tokio = { version = "1", features = ["rt-multi-thread", "macros", "sync"] }
axum = "0.6"
mlua = { version = "0.8", features = ["luau", "async", "serialize"] }
sqlx-core = { version = "0.6", features = ["postgres", "runtime-tokio-rustls", "time", "uuid", "json"] }
postgrest-query-parser = "*"
