[package]
name = "xssninja"
version = "0.1.0"
edition = "2021"
publish = false

[dependencies]
url = "=2.5.8"
urlencoding = "=2.1.3"
regex = "=1.13.1"
scraper = "=0.27.0"
log = "=0.4.34"
colored = "=3.1.1"
env_logger = "=0.11.11"
futures = "=0.3.34"
structopt = "=0.3.26"
tokio = { version = "=1.53.2", features = ["macros", "rt-multi-thread"] }
reqwest = { version = "=0.13.5", default-features = false, features = ["form"] }
