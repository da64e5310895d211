[package]
name = "sui_data_loader"
version = "0.1.0"
edition = "2021"
publish = false

[dependencies]
bson = "2"
mongodb = "2"
actix-web = { version = "4", default-features = false, features = ["macros"] }
async-graphql = { version = "7", features = ["apollo_tracing"] }
async-graphql-actix-web = "7"
async-stream = "0.3"
futures = "0.3"
futures-util = "0.3"
serde = { version = "1", features = ["derive"] }
thiserror = "1"
anyhow = "1"
clap = { version = "4", features = ["derive"] }
dotenv = "0.15"
tokio = { version = "1", features = ["macros", "rt-multi-thread", "signal", "sync", "time"] }
tracing = "0.1"
tracing-subscriber = { version = "0.3", features = ["env-filter"] }
