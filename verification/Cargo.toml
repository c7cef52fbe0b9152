[package]
name = "ai_cli"
version = "0.1.0"
edition = "2021"
publish = false

[dependencies]
anyhow = "=1.0.104"
async-openai = "=0.28.3"
build-time = "=0.1.3"
chrono = "=0.4.45"
clap = { version = "=4.6.7", features = ["derive"] }
colored = "=3.1.1"
dialoguer = "=0.12.0"
difference = "=2.0.0"
dirs = "=7.0.0"
dotenv = "=0.15.0"
lettre = "=0.11.23"
log = "=0.4.34"
pithy = "=0.1.7"
readability = { version = "=0.3.0", default-features = false }
regex = "=1.13.1"
reqwest = "=0.12.28"
rustyline = "=19.0.0"
serde_json = "=1.0.154"
shell-words = "=1.1.1"
spinners = "=4.2.0"
tavily = "=2.1.0"
termimad = "=0.35.5"
tokio = { version = "=1.54.1", features = ["full"] }
