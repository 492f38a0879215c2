[package]
name = "pact_network"
version = "0.1.0"
edition = "2021"
publish = false

[dependencies]
anyhow = "1"
async-trait = "0.1"
clap = { version = "4", features = ["derive"] }
env_logger = "0.10"
futures = "0.3"
handlebars = "4"
lazy_static = "1"
log = "0.4"
reqwest = { version = "0.11", default-features = false, features = ["json"] }
serde = { version = "1", features = ["derive"] }
serde_json = "1"
serde_path_to_error = "0.1"
snafu = "0.7"
tokio = { version = "1", features = ["macros", "rt-multi-thread"] }
url = "2"
