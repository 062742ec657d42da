//! Token lifecycle management and an EventSub session state machine for a
//! streaming platform's push-notification service.
//!
//! The crate holds the protocol logic itself: deciding when a stored token is
//! fresh, deriving its expiry, encoding and decoding the token record kept on
//! disk, validating the OAuth2 callback query, and stepping the WebSocket
//! session through the protocol's frames. Network, file and clock access stay
//! with the caller, which feeds plain values in and carries the decided
//! actions out.

pub mod auth;
pub mod config;
pub mod errors;
pub mod helper;
pub mod moderation;
pub mod strutil;
pub mod time;
pub mod token;
pub mod tokenfile;
pub mod websocket;
