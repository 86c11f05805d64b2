[package]
name = "chatserver"
version = "0.1.0"
edition = "2021"
publish = false

[dependencies]
rand = "0.9"
regex = { version = "1", default-features = false, features = ["std"] }
sha3 = "0.10"
serde = { version = "1", features = ["derive"] }
tokio = { version = "1", default-features = false, features = ["rt-multi-thread", "macros", "net", "sync", "io-util", "io-std", "time"] }
clavis = "=0.1.1-rc7"
cliclack = { version = "*", default-features = false }
ratatui = { version = "0.30", default-features = false, features = ["crossterm"] }
crossterm = { version = "0.29", features = ["event-stream"] }
tui-input = { version = "*", default-features = false, features = ["crossterm"] }
color-eyre = { version = "0.6", default-features = false }
futures = "0.3"
turso = { version = "*", default-features = false }
