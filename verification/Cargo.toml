[package]
name = "pi"
version = "0.1.0"
edition = "2021"
publish = false

[dependencies]
anyhow = "=1.0.104"
asupersync = { version = "=0.2.9", default-features = false }
async-trait = "=0.1.92"
charmed-bubbles = "=0.2.4"
charmed-bubbletea = "=0.2.4"
charmed-glamour = "=0.2.4"
charmed-lipgloss = "=0.2.4"
chrono = "=0.4.45"
crossterm = "=0.29.0"
futures = "=0.3.34"
rich_rust = "=0.2.3"
serde = { version = "=1.0.229", features = ["derive"] }
serde_json = "=1.0.154"
similar = "=2.7.0"
thiserror = "=2.0.21"
tokio = { version = "=1.54.1", features = ["sync", "rt", "macros", "time"] }
tracing = "=0.1.44"
