[package]
name = "chatters"
version = "0.1.0"
edition = "2021"
publish = false

[dependencies]
pico-args = "0.5"
shell-words = "1"
emojis = "0.6"
regex = "1"
textwrap = "0.16"
hex = "0.4"
tui-textarea = "0.7"
ratatui = "0.29"
crossterm = { version = "0.28", features = ["event-stream"] }
mime_guess = "2"
futures = "0.3"
tokio = { version = "1", features = ["rt-multi-thread", "macros", "time"] }
serde = { version = "1", features = ["derive"] }
serde_json = "1"
toml = "0.8"
chrono = "0.4"
url = "2"
thiserror = "2"
anyhow = "1"
clap = { version = "4", features = ["derive"] }
directories = "6"
env_logger = "0.11"
log = "0.4"
open = "5"
tempfile = "3"
qrcode-generator = "5"
rand = "0.9"
uuid = "1"
