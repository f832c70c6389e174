[package]
name = "picus"
version = "0.1.0"
edition = "2021"
publish = false

[dependencies]
async-trait = "=0.1.92"
env_logger = { version = "=0.11.11", default-features = false }
go-parse-duration = "=0.1.1"
handlebars = "=6.4.4"
hcloud = { version = "=0.26.0", default-features = false }
log = "=0.4.34"
reqwest = { version = "=0.12.28", default-features = false }
serde = { version = "=1.0.229", features = ["derive"] }
serde_json = "=1.0.151"
tokio = { version = "=1.53.2", features = ["macros", "rt-multi-thread", "time"] }
