[package]
name = "domain_hunter"
version = "0.1.0"
edition = "2021"
publish = false

[dependencies]
scraper = "*"
itertools = "*"
thirtyfour = "*"
tokio = { version = "1", features = ["rt-multi-thread", "macros", "time"] }
dotenv = "*"
duckdb = "*"
