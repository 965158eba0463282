//! Decision core of a conversational agent.
//!
//! The crate keeps a bounded, well-formed conversation history per channel,
//! drives the dispatch loop that exchanges turns with a remote language
//! model, and hosts user-supplied Lua plugins whose tools the model may
//! invoke.  All state-machine logic is verified; calls into outside crates
//! (the Lua interpreter, HTTP, codecs) stand behind small trusted wrappers.

pub mod strings;
pub mod channel;
pub mod claude;
pub mod dispatch;
pub mod handler;
pub mod plugins;
