//! The decisions of a bridge that forwards the text messages of one Telegram
//! group to Nostr: which configuration is usable, how a message is rendered,
//! which event a delivery mode asks for, and which relays are published to.
//! Reading the environment, receiving messages and publishing events are left
//! to the program that uses this library.

pub mod bridge;
pub mod config;
pub mod dispatch;
pub mod format;
pub mod relay;
pub mod text;
pub mod vars;
