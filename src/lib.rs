//! Client-side logic for a key-value/document store spoken to over a
//! WebSocket with a line-oriented text protocol: command formatting, the
//! connection configuration and credential payload, and the session
//! lifecycle as a state machine whose transport work is done by the caller.

pub mod client;
pub mod command;
pub mod inbound;
pub mod session;
