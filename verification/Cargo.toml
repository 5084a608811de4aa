[package]
name = "timetrack"
version = "0.1.0"
edition = "2021"
publish = false

[dependencies]
chrono = "0.4"
serde = { version = "1", features = ["derive"] }
toml = "0.8"
ratatui = "0.29"
crossterm = "0.28"
tui-input = "0.11"
color-eyre = "0.6"
tokio = { version = "1", features = ["macros", "rt-multi-thread"] }
directories = "5"
reqwest = { version = "0.12", default-features = false, features = ["cookies", "rustls-tls"] }
libxml = "0.3"

[dev-dependencies]
ansi-to-tui = "7"
