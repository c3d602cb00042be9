//! A challenge/response arithmetic game spoken over binary frames, and a
//! stateless addition service that shares its message schema.
//!
//! The server poses a problem, the client answers, and the server either
//! congratulates and closes or poses a new problem. Each message is one
//! binary frame in the Protocol Buffers wire format.
//!
//! - [`wire`]: varints, field keys, length-delimited payloads, text.
//! - [`fields`]: messages made of 32-bit integer fields.
//! - [`proto`]: the five messages, their bytes, and the round-trip laws.
//! - [`generator`]: the random problem generator.
//! - [`session`]: the state machine of one game.
//! - [`channel`]: what a message channel hands to either end.
//! - [`server`]: what the server does with each thing that arrives, and the
//!   addition service.
//! - [`client`]: what the client does with each thing that arrives, and with
//!   what the player types.
//! - [`protocol`]: what the two ends hold for each other.
//!
//! The crate decides and encodes; moving frames over a socket and talking to
//! a console is left to the program that links it.

pub mod channel;
pub mod client;
pub mod fields;
pub mod generator;
pub mod proto;
pub mod protocol;
pub mod server;
pub mod session;
pub mod wire;
