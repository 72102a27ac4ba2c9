//! Verified core of a phone-driven mouse server.

pub mod address;
pub mod autostart;
pub mod cache;
pub mod issue;
pub mod layout;
pub mod pem;
pub mod processor;
pub mod protocol;
pub mod text;
pub mod throttle;
pub mod tls;
