[package]
name = "nostr_bridge"
version = "0.1.0"
edition = "2021"
publish = false

[dependencies]
chrono = "=0.4.45"
hex = "=0.4.3"
nostr-sdk = { version = "=0.43.0", features = ["nip04"] }
teloxide = { version = "=0.12.2", default-features = false, features = ["rustls", "ctrlc_handler"] }
# Not used by this crate's code. teloxide-core takes any takecell 0.1, and
# 0.1.2 raised its minimum Rust version: the pin keeps teloxide building on
# older compilers.
takecell = "=0.1.1"
tokio = { version = "=1.54.1", features = ["macros", "rt-multi-thread", "signal"] }
dotenv = "=0.15.0"
env_logger = "=0.10.2"
log = "=0.4.34"
thiserror = "=1.0.69"
