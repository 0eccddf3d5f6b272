[package]
name = "secure_sum"
version = "0.1.0"
edition = "2021"
publish = false

[dependencies]
chrono = "*"
clap = { version = "*", features = ["derive"] }
dotenvy = "*"
etcetera = "*"
flate2 = "*"
flexi_logger = "*"
humantime = "*"
log = "*"
quick-xml = { version = "*", features = ["serialize"] }
rayon = "*"
reqwest = { version = "*", features = ["blocking"] }
serde = { version = "*", features = ["derive"] }
serde_json = "*"
tabled = "*"
tar = "*"
thiserror = "*"
toml = "*"
wait-timeout = "*"
