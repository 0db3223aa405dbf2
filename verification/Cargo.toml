[package]
name = "dex_indexer"
version = "0.1.0"
edition = "2021"
publish = false

[dependencies]
ethabi = "=18.0.0"
ethers = { version = "2", default-features = false }
sqlx = { version = "0.7", default-features = false, features = ["postgres", "runtime-tokio"] }
tokio = { version = "1", default-features = false, features = ["rt-multi-thread", "macros", "time"] }
actix-web = { version = "4", default-features = false, features = ["macros"] }
serde = { version = "1", features = ["derive"] }
chrono = { version = "0.4", default-features = false, features = ["std", "now"] }
anyhow = "1"
thiserror = "1"
tracing = { version = "0.1", default-features = false, features = ["std"] }
futures-util = { version = "0.3", default-features = false, features = ["std"] }
tokio-tungstenite = { version = "*", default-features = false, features = ["connect"] }
