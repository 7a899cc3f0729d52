[package]
name = "cosmonaut_code"
version = "0.2.0"
edition = "2021"
publish = false

[dependencies]
sha2 = "=0.10.9"
regex = "=1.13.1"
url = "=2.5.8"
chrono = "=0.4.45"
serde = { version = "=1.0.229", features = ["derive"] }
serde_json = "=1.0.154"
log = "=0.4.35"
env_logger = "=0.10.2"
walkdir = "=2.5.0"
git2 = { version = "=0.18.3", default-features = false }
tokio = { version = "=1.54.1", features = ["rt-multi-thread", "macros"] }
async-trait = "=0.1.92"
reqwest = { version = "=0.11.27", default-features = false, features = ["json", "rustls-tls", "stream"] }
openai-api-rs = "=2.1.7"
handlebars = "=5.1.2"
config = "=0.15.27"
dotenv = "=0.15.0"
futures = "=0.3.34"
google-generative-ai-rs = "*"
gcp_auth = "0.10"
reqwest-streams = { version = "0.5", features = ["json"] }
