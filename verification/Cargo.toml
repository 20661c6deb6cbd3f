[package]
name = "dice_pool"
version = "0.1.0"
edition = "2021"
publish = false

[dependencies]
rand = "0.8"
rand_distr = "0.4"
serde = { version = "1", features = ["derive"] }
anyhow = "1"
poise = { version = "0.6", default-features = false, features = ["cache"] }
sea-orm = { version = "1.1", default-features = false, features = ["sqlx-postgres", "runtime-tokio-rustls"] }
shuttle-runtime = { version = "0.57", default-features = false }
shuttle-serenity = "0.57"
shuttle-shared-db = { version = "0.57", features = ["postgres"] }
tokio = "1"
