[package]
name = "otpc"
version = "0.1.0"
edition = "2021"
publish = false

[dependencies]
anyhow = "=1.0.104"
arboard = { version = "=3.7.0", default-features = false }
crossterm = "=0.29.0"
google_authenticator_converter = "=0.2.0"
homedir = "=0.3.6"
image = { version = "=0.25.8", default-features = false }
keyring = { version = "=3.6.3", features = ["apple-native", "linux-native", "windows-native"] }
rxing = "=0.9.3"
serde = { version = "=1.0.229", features = ["derive"] }
serde_json = "=1.0.154"
totp-rs = { version = "=6.0.0", features = ["otpauth"] }
tui-input = { version = "=0.15.5", default-features = false, features = ["crossterm"] }
urlencoding = "=2.1.3"
