[package]
name = "crabberbot"
version = "0.1.0"
edition = "2021"
rust-version = "1.95"
publish = false

[dependencies]
url = "=2.5.8"
dashmap = "=6.2.1"
uuid = { version = "=1.29.0", features = ["v4"] }
tokio = { version = "1", features = ["macros", "rt-multi-thread", "process", "fs", "time"] }
teloxide = { version = "=0.17.0", default-features = false, features = ["macros", "webhooks-axum", "ctrlc_handler", "rustls"] }
# Not used by this crate's code: teloxide-core asks for takecell 0.1, and
# takecell 0.1.2 needs Rust 1.96, above the rust-version stated here.
takecell = "=0.1.1"
sqlx = { version = "=0.8.6", default-features = false, features = ["postgres", "runtime-tokio", "migrate"] }
serde = { version = "1", features = ["derive"] }
serde_json = "1"
glob = "0.3"
log = "0.4"
pretty_env_logger = "0.5"
async-trait = "0.1"
thiserror = "2"
reqwest = { version = "0.12", default-features = false, features = ["rustls-tls"] }
google-cloud-auth = "=1.18.0"
http = "1"
indoc = "2"
