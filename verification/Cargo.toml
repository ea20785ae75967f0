[package]
name = "item_finder"
version = "0.1.0"
edition = "2021"
publish = false

[dependencies]
anyhow = "1"
hematite-nbt = "0.5"
log = "0.4"
regex = "1"
serde = { version = "1", features = ["derive"] }
serde_json = "1"
simplelog = "0.12"
structopt = "0.3"
