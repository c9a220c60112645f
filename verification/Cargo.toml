[package]
name = "market_indicators"
version = "0.1.0"
edition = "2021"
publish = false

[dependencies]
chrono = "=0.4.45"
datafusion = "=55.2.0"
dotenv = "=0.15.0"
futures = "=0.3.34"
object_store = { version = "=0.13.2", features = ["aws"] }
serde = { version = "=1.0.229", features = ["derive"] }
url = "=2.5.8"
