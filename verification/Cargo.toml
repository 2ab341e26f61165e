[package]
name = "portobello"
version = "0.1.0"
edition = "2021"
publish = false

[dependencies]
sea-query = "0.32"
sea-orm = { version = "1.1", default-features = false, features = ["macros", "with-chrono", "sqlx-postgres", "runtime-async-std"] }
sea-orm-migration = { version = "1.1", default-features = false, features = ["sqlx-postgres", "runtime-async-std"] }
strum = "0.26"
strum_macros = "0.26"
async-trait = "0.1"
futures = "0.3"
dotenv = "0.15"
chrono = "0.4"
serde = { version = "1", features = ["derive"] }
validator = { version = "0.16", features = ["derive"] }
lazy_static = "1"
regex = "1"
