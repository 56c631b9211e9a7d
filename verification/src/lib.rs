//! A codec for a line-oriented chat protocol.
//!
//! The crate parses raw protocol lines into structured messages
//! (an optional sender prefix, a command word or three-digit reply
//! code, and a parameter list with an optional trailing part), and
//! maps those messages into per-command records and back into wire
//! text, driven by declarative command specifications.

pub mod codec;
pub mod constants;
pub mod default_messages;
pub mod error;
pub mod grammar;
pub mod laws;
pub mod message;
pub mod registry;
pub mod text;
