[package]
name = "speedylemon"
version = "0.1.0"
edition = "2021"
publish = false

[dependencies]
anyhow = "1"
crossterm = "0.27"
csv = "1"
futures = "0.3"
itertools = "0.12"
log = "0.4"
mumblelink_reader = "*"
pretty_env_logger = "0.5"
ratatui = "0.26"
reqwest = { version = "0.12", default-features = false, features = ["json", "multipart", "rustls-tls"] }
serde = { version = "1", features = ["derive"] }
serde-aux = "4"
textwrap = "0.16"
tokio = { version = "1", features = ["macros", "rt-multi-thread"] }
toml = "0.8"
unicode-segmentation = "1"
