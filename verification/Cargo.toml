[package]
name = "histdb"
version = "0.1.0"
edition = "2021"
publish = false

[dependencies]
anyhow = "1"
chrono = "0.4"
chrono-english = "*"
chronoutil = "*"
clap = { version = "*", features = ["derive"] }
crossterm = "*"
ctty = "*"
daemonize = "*"
futures-util = "0.3"
gethostname = "*"
git-version = "*"
glob = "*"
lazy_static = "1"
nix = { version = "*", features = ["fs"] }
rusqlite = { version = "*", features = ["bundled"] }
serde = { version = "1", features = ["derive"] }
stybulate = "*"
sysinfo = "*"
tarpc = { version = "*", features = ["serde1", "tokio1", "serde-transport", "serde-transport-bincode", "tcp"] }
thiserror = "*"
tokio = { version = "1", features = ["full"] }
tracing = "0.1"
tracing-appender = "*"
tracing-subscriber = { version = "*", features = ["env-filter"] }
unicode-segmentation = "1"
unicode-width = "*"
