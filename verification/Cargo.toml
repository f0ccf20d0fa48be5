[package]
name = "transit_live"
version = "0.1.0"
edition = "2021"
publish = false

[dependencies]
chrono = "0.4"
chrono-tz = "*"
dashmap = "*"
dotenvy = "*"
neo4rs = "*"
prost = "*"
reqwest = { version = "*", default-features = false, features = ["rustls-tls"] }
rocket = { version = "0.5", features = ["json"] }
rocket_db_pools = { version = "*", features = ["sqlx_sqlite"] }
serde = { version = "1", features = ["derive"] }
tokio = { version = "1", features = ["rt-multi-thread", "macros", "time"] }
