//! A bridge from HTTP to AMCP, the line-oriented control protocol of CasparCG
//! servers.
//!
//! A request carries one text command. The command goes out over a fresh
//! connection with a line terminator behind it, the reply is read until it is
//! complete, and its status and payload become the response. This crate holds
//! the decisions of that cycle; sockets and the HTTP server stay with the
//! caller, which performs each [`Action`] and reports back a [`BridgeEvent`].

pub mod bridge;
pub mod config;
pub mod decode;
pub mod framer;
pub mod http;
pub mod reply;
pub mod status;
pub mod text;

pub use bridge::{wire_command, Action, Bridge, BridgeEvent};
pub use config::{Config, LogLevel};
pub use framer::{FramerState, ReadEvent, ReplyFramer};
pub use http::{http_status, HttpReply};
pub use reply::{extract, AmcpResponse};
