[package]
name = "stuart"
version = "0.1.0"
edition = "2021"
publish = false

[dependencies]
strip-ansi-escapes = "*"
crossterm = "*"
terminput = "*"
terminput-crossterm = "*"
ratatui = "*"
vt100 = "*"
arboard = { version = "*", default-features = false }
serialport = { version = "*", default-features = false }
clap = { version = "*", features = ["derive"] }
clap_complete = "*"
serde = { version = "*", features = ["derive"] }
config = { version = "*", default-features = false, features = ["toml"] }
