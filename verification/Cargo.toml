[package]
name = "ordis"
version = "0.1.0"
edition = "2021"
publish = false

[dependencies]
rand = "0.8"
regex = "1"
sha2 = "0.10"
serde = { version = "1", features = ["derive"] }
serde_json = "1"
meval = "0.2"
poise = "0.6"
tokio = { version = "1", features = ["full"] }
reqwest = { version = "0.12", features = ["json"] }
chrono = "0.4"
lazy_static = "1"
dotenv = "0.15"
emojis = "0.6"
uuid = "1"
async-trait = "0.1"
diesel = { version = "2", features = ["sqlite", "r2d2"] }
phf = { version = "0.11", features = ["macros"] }
phf_macros = "0.11"
