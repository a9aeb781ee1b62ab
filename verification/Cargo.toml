[package]
name = "uda_schedule"
version = "0.1.0"
edition = "2021"
publish = false

[dependencies]
chrono = "=0.4.45"
colored = "=3.1.1"
dotenv = "=0.15.0"
indicatif = "=0.18.6"
prettytable-rs = "=0.10.0"
reqwest = { version = "=0.13.5", default-features = false, features = ["cookies", "json", "form"] }
scraper = "=0.27.0"
serde = { version = "=1.0.229", features = ["derive"] }
tokio = { version = "=1.53.2", features = ["macros", "rt-multi-thread"] }
