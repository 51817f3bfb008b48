[package]
name = "github_contributions"
version = "0.1.0"
edition = "2021"
publish = false

[dependencies]
anyhow = "1"
chrono = "=0.4.45"
futures = "0.3"
octocrab = "=0.40.0"
regex = "=1.13.1"
serde = { version = "1", features = ["derive"] }
structopt = "0.3"
tokio = { version = "1", features = ["macros", "rt-multi-thread"] }
toml = "*"
tracing = "0.1"
tracing-subscriber = { version = "*", features = ["env-filter"] }
url = "2"
