[package]
name = "valipower"
version = "0.1.0"
edition = "2021"
publish = false

[dependencies]
salvo = { version = "*", default-features = false, features = ["oapi", "server", "http1"] }
salvo_core = { version = "*", default-features = false }
serde = { version = "1", features = ["derive"] }
serde_json = "1"
tokio = { version = "1", features = ["macros", "rt-multi-thread"] }
async-trait = "0.1"
tera = { version = "1", default-features = false }
once_cell = "1"
syn = { version = "2", features = ["full"] }
quote = "1"
proc-macro2 = "1"
tracing-subscriber = "0.3"
