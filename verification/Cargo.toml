[package]
name = "ifrs_hledger"
version = "0.1.0"
edition = "2021"
publish = false

[dependencies]
async-trait = "0.1.92"
base64 = "0.22.1"
chrono = "0.4.45"
csv = "1.4.0"
futures = "0.3.34"
iso_currency = "0.5.3"
num-format = "0.4.4"
regex = "1.12.4"
ron = "0.8.1"
serde = { version = "1.0.229", features = ["derive"] }
serde_derive = "1.0.229"
serde_json = "1.0.154"
textwrap = "0.16.4"
tokio = { version = "1.48.0", features = ["fs", "rt", "macros"] }
