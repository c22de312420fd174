//! Conversation sessions with an on-device language model: the messages and
//! file contexts of a session, how requests are built from them, when a session
//! expires, how stored sessions are listed, found by id prefix and cleaned up,
//! and how the history of another assistant's sessions is read.
use vstd::prelude::*;

pub mod text;
pub mod types;
pub mod ident;
pub mod clock;
pub mod provider;
pub mod paths;
pub mod session;
pub mod order;
pub mod store;
pub mod history;
pub mod prompt;
pub mod config;
pub mod cli;
pub mod chat;
pub mod dto;
pub mod laws;

verus! {

} // verus!
