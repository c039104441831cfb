[package]
name = "llmvm"
version = "0.1.0"
edition = "2021"
publish = false

[dependencies]
anyhow = "=1.0.104"
async-stream = "=0.3.6"
clap = { version = "=4.6.7", features = ["derive"] }
futures = "=0.3.34"
handlebars = "=4.5.0"
llm = "=0.1.1"
lsp-types = "=0.94.1"
notify = "=6.1.1"
rand = "=0.8.8"
reqwest = { version = "=0.11.27", default-features = false, features = ["json", "stream", "rustls-tls"] }
rustyline = "=12.0.0"
serde = { version = "=1.0.229", features = ["derive"] }
serde_json = "=1.0.154"
thiserror = "=1.0.69"
time = { version = "=0.3.55", features = ["formatting", "local-offset"] }
tokio = { version = "=1.54.1", features = ["full"] }
tokio-stream = "=0.1.19"
toml = "=0.7.8"
url = "=2.5.8"
