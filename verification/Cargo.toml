[package]
name = "derrick"
version = "0.1.0"
edition = "2021"
publish = false

[dependencies]
anyhow = "1"
async-trait = "0.1"
base64 = "0.22"
bollard = "0.17"
clap = { version = "4", features = ["derive"] }
dropshot = "0.12"
futures-util = "0.3"
hex = "0.4"
http = "1"
jsonwebtoken = "9"
octocrab = "0.38"
rand = "0.8"
schemars = "0.8"
serde = { version = "1", features = ["derive"] }
serde_json = "1"
sha2 = "0.10"
shell-escape = "0.1"
tar = "0.4"
tokio = { version = "1", features = ["full"] }
tracing = "0.1"
tracing-subscriber = "0.3"
url = "2"
uuid = { version = "1", features = ["v4"] }
whoami = "1"

[dev-dependencies]
regex = "1"
