[package]
name = "ccs"
version = "0.1.0"
edition = "2021"
publish = false

[dependencies]
anstream = "*"
anyhow = "*"
arboard = "*"
clap = "*"
crossterm = "*"
directories = "*"
flume = "*"
ignore = "*"
notify = "*"
owo-colors = "*"
serde = { version = "*", features = ["derive"] }
serde_json = "*"
toml = "*"
yansi = "*"
