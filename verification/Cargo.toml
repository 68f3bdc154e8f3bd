[package]
name = "rdict_core"
version = "0.3.0"
edition = "2021"
publish = false

[dependencies]
scraper = "0.29"
owo-colors = "4"
serde = { version = "1", features = ["derive"] }
serde_json = "1"
reqwest = { version = "0.12", default-features = false, features = ["rustls-tls"] }
sqlx = { version = "0.8", default-features = false, features = ["sqlite", "runtime-tokio", "migrate"] }
tokio = { version = "1", features = ["macros", "rt-multi-thread"] }
thiserror = "2"
log = "0.4"
anyhow = "1"
clap = { version = "4", features = ["derive"] }
clap_complete = "4"
console = { version = "0.16", default-features = false, features = ["std"] }
crossterm = "0.28"
directories-next = "2"
env_logger = { version = "0.11", default-features = false }
indicatif = { version = "0.18", default-features = false }
ratatui = { version = "0.29", default-features = false, features = ["crossterm"] }
rustyline = { version = "17", default-features = false }
